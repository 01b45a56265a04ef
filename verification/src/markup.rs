//! The markup that a model puts into its replies: tool calls between
//! `<tool_call>` tags, thoughts between `<think>` tags, and fenced code blocks.

use vstd::prelude::*;

use crate::lines::{index_of, joined, law_joined, lemma_index_of, position_of};
use crate::text::{
    chars_of, contains, find_chars, find_from, lemma_find_first, lemma_find_from, lemma_find_shift,
    lemma_find_unique, lemma_trim_idempotent, matches_at, string_of, trim,
    trimmed, trimmed_range, views,
};

verus! {

/// A fenced block of code: what stands behind the opening fence, and what follows up to
/// the closing one.
#[derive(Debug)]
pub struct CodeBlock {
    pub language: String,
    pub code: String,
}

/// The characters of a [`CodeBlock`].
pub struct CodeBlockView {
    pub language: Seq<char>,
    pub code: Seq<char>,
}

impl View for CodeBlock {
    type V = CodeBlockView;

    open spec fn view(&self) -> CodeBlockView {
        CodeBlockView { language: self.language@, code: self.code@ }
    }
}

impl Clone for CodeBlock {
    fn clone(&self) -> (copy: Self)
        ensures
            copy@ == self@,
    {
        CodeBlock { language: self.language.clone(), code: self.code.clone() }
    }
}

/// The views of a sequence of code blocks.
pub open spec fn block_views(blocks: Seq<CodeBlock>) -> Seq<CodeBlockView> {
    Seq::new(blocks.len(), |i: int| blocks[i]@)
}

// ---------------------------------------------------------------------------
// Tool calls
// ---------------------------------------------------------------------------

/// What stands between each opening tag and the closing tag that follows it, from
/// position `from` on and without the white space around it. An opening tag that is
/// never closed ends the search.
pub open spec fn enclosed_from(
    s: Seq<char>,
    open: Seq<char>,
    close: Seq<char>,
    from: int,
) -> Seq<Seq<char>>
    decreases s.len() - from,
    when 0 <= from && close.len() > 0
{
    proof {
        lemma_find_from(s, open, from);
    }
    match find_from(s, open, from) {
        None => seq![],
        Some(start) => {
            let inner = start + open.len();
            proof {
                lemma_find_from(s, close, inner);
            }
            match find_from(s, close, inner) {
                None => seq![],
                Some(end) => seq![trim(s.subrange(inner, end))] + enclosed_from(
                    s,
                    open,
                    close,
                    end + close.len(),
                ),
            }
        },
    }
}

/// The texts that a reply holds between `<tool_call>` and `</tool_call>`.
pub open spec fn tool_call_texts(s: Seq<char>) -> Seq<Seq<char>> {
    enclosed_from(s, "<tool_call>"@, "</tool_call>"@, 0)
}

/// `s` from position `from` on, without the sections between `open` and `close`. What
/// follows an opening tag that is never closed is dropped, or with `repeat_rest` the
/// whole rest since the last section is put behind the text in front of the tag.
pub open spec fn outside_from(
    s: Seq<char>,
    open: Seq<char>,
    close: Seq<char>,
    from: int,
    repeat_rest: bool,
) -> Seq<char>
    decreases s.len() - from,
    when 0 <= from && close.len() > 0
{
    proof {
        lemma_find_from(s, open, from);
    }
    match find_from(s, open, from) {
        None => s.skip(from),
        Some(start) => {
            proof {
                lemma_find_from(s, close, start);
            }
            s.subrange(from, start) + match find_from(s, close, start) {
                Some(end) => outside_from(s, open, close, end + close.len(), repeat_rest),
                None => if repeat_rest {
                    s.skip(from)
                } else {
                    seq![]
                },
            }
        },
    }
}

/// `s` without the thoughts in it, and without white space around it.
pub open spec fn without_thoughts(s: Seq<char>) -> Seq<char> {
    trim(outside_from(s, "<think>"@, "</think>"@, 0, false))
}

/// `s` without the tool calls and the thoughts in it, and without white space around it.
pub open spec fn without_tool_calls(s: Seq<char>) -> Seq<char> {
    without_thoughts(trim(outside_from(s, "<tool_call>"@, "</tool_call>"@, 0, true)))
}

/// The texts that `text` holds between `<tool_call>` and `</tool_call>`, in order.
pub fn tool_call_payloads(text: &str) -> (payloads: Vec<String>)
    ensures
        views(payloads@) == tool_call_texts(text@),
{
    let chars = chars_of(text);
    let open = chars_of("<tool_call>");
    let close = chars_of("</tool_call>");
    proof {
        reveal_strlit("<tool_call>");
        reveal_strlit("</tool_call>");
    }
    let mut payloads: Vec<String> = Vec::new();
    let mut pos: usize = 0;
    let len: usize = chars.len();
    assert(views(payloads@) + tool_call_texts(text@) == tool_call_texts(text@));
    loop
        invariant
            chars@ == text@,
            open@ == "<tool_call>"@,
            close@ == "</tool_call>"@,
            open@.len() == 11,
            close@.len() == 12,
            len == chars@.len(),
            pos <= len,
            views(payloads@) + enclosed_from(text@, open@, close@, pos as int) == tool_call_texts(
                text@,
            ),
        decreases len - pos,
    {
        let ghost before = views(payloads@);
        let start: usize = match find_chars(&chars, &open, pos) {
            Some(at) => at,
            None => {
                assert(before == tool_call_texts(text@));
                return payloads;
            },
        };
        let inner: usize = start + 11;
        let end: usize = match find_chars(&chars, &close, inner) {
            Some(at) => at,
            None => {
                assert(before == tool_call_texts(text@));
                return payloads;
            },
        };
        let payload = trimmed_range(&chars, inner, end);
        payloads.push(payload);
        assert(views(payloads@) == before.push(payload@));
        assert(before.push(payload@) + enclosed_from(text@, open@, close@, end + 12) == before
            + enclosed_from(text@, open@, close@, pos as int));
        pos = end + 12;
    }
}

/// Removes the sections between `open` and `close`.
fn remove_sections(text: &str, open: &str, close: &str, repeat_rest: bool) -> (kept: String)
    requires
        close@.len() > 0,
    ensures
        kept@ == outside_from(text@, open@, close@, 0, repeat_rest),
{
    let chars = chars_of(text);
    let opening = chars_of(open);
    let closing = chars_of(close);
    let len: usize = chars.len();
    let mut kept = String::new();
    let mut pos: usize = 0;
    let ghost whole = outside_from(text@, open@, close@, 0, repeat_rest);
    assert(kept@ + whole == whole);
    loop
        invariant
            chars@ == text@,
            opening@ == open@,
            closing@ == close@,
            close@.len() > 0,
            len == chars@.len(),
            pos <= len,
            whole == outside_from(text@, open@, close@, 0, repeat_rest),
            kept@ + outside_from(text@, open@, close@, pos as int, repeat_rest) == whole,
        decreases len - pos,
    {
        let ghost before = kept@;
        let start: usize = match find_chars(&chars, &opening, pos) {
            Some(at) => at,
            None => {
                let rest = string_of(&chars, pos, len);
                kept.push_str(rest.as_str());
                assert(rest@ == text@.skip(pos as int));
                return kept;
            },
        };
        let gap = string_of(&chars, pos, start);
        kept.push_str(gap.as_str());
        match find_chars(&chars, &closing, start) {
            Some(end) => {
                let ghost rest = outside_from(text@, open@, close@, end + close@.len(), repeat_rest);
                assert(before + (gap@ + rest) == kept@ + rest);
                pos = end + closing.len();
            },
            None => {
                if repeat_rest {
                    let rest = string_of(&chars, pos, len);
                    kept.push_str(rest.as_str());
                    assert(rest@ == text@.skip(pos as int));
                    assert(before + (gap@ + rest@) == kept@);
                } else {
                    assert(before + (gap@ + Seq::<char>::empty()) == kept@);
                }
                return kept;
            },
        }
    }
}

/// `text` without the thoughts in it, and without white space around it.
pub fn strip_think_tags(text: &str) -> (clean: String)
    ensures
        clean@ == without_thoughts(text@),
{
    proof {
        reveal_strlit("</think>");
    }
    let kept = remove_sections(text, "<think>", "</think>", false);
    trimmed(kept.as_str())
}

/// `text` without the tool calls and the thoughts in it, and without white space around it.
pub fn strip_tool_calls_from_text(text: &str) -> (clean: String)
    ensures
        clean@ == without_tool_calls(text@),
{
    proof {
        reveal_strlit("</tool_call>");
    }
    let kept = remove_sections(text, "<tool_call>", "</tool_call>", true);
    let outside = trimmed(kept.as_str());
    strip_think_tags(outside.as_str())
}

// ---------------------------------------------------------------------------
// Code blocks
// ---------------------------------------------------------------------------

/// Whether a line feed follows every opening fence from position `from` on.
pub open spec fn fences_ended_from(s: Seq<char>, from: int) -> bool
    decreases s.len() - from,
    when 0 <= from
{
    proof {
        reveal_strlit("```");
        lemma_find_from(s, "```"@, from);
    }
    match find_from(s, "```"@, from) {
        None => true,
        Some(start) => {
            let info = start + "```"@.len();
            let end = index_of(s, '\n', info);
            proof {
                lemma_index_of(s, '\n', info);
                lemma_find_from(s, "```"@, end + 1);
            }
            &&& end < s.len()
            &&& match find_from(s, "```"@, end + 1) {
                None => true,
                Some(close) => fences_ended_from(s, close + "```"@.len()),
            }
        },
    }
}

/// Whether a line feed follows every opening fence of `s`.
pub open spec fn fences_ended(s: Seq<char>) -> bool {
    fences_ended_from(s, 0)
}

/// The code blocks of `s` from position `from` on. A fence that is never closed ends
/// the search.
pub open spec fn blocks_from(s: Seq<char>, from: int) -> Seq<CodeBlockView>
    decreases s.len() - from,
    when 0 <= from
{
    proof {
        reveal_strlit("```");
        lemma_find_from(s, "```"@, from);
    }
    match find_from(s, "```"@, from) {
        None => seq![],
        Some(start) => {
            let info = start + "```"@.len();
            let end = index_of(s, '\n', info);
            proof {
                lemma_index_of(s, '\n', info);
                lemma_find_from(s, "```"@, end + 1);
            }
            match find_from(s, "```"@, end + 1) {
                None => seq![],
                Some(close) => seq![
                    CodeBlockView {
                        language: trim(s.subrange(info, end)),
                        code: s.subrange(end + 1, close),
                    },
                ] + blocks_from(s, close + "```"@.len()),
            }
        },
    }
}

/// `s` from position `from` on without its fences: each block is left as its code
/// alone. At a fence that is never closed, the whole rest since the last block is put
/// behind the text in front of the fence.
pub open spec fn unfenced_from(s: Seq<char>, from: int) -> Seq<char>
    decreases s.len() - from,
    when 0 <= from
{
    proof {
        reveal_strlit("```");
        lemma_find_from(s, "```"@, from);
    }
    match find_from(s, "```"@, from) {
        None => s.skip(from),
        Some(start) => {
            let info = start + "```"@.len();
            let end = index_of(s, '\n', info);
            proof {
                lemma_index_of(s, '\n', info);
                lemma_find_from(s, "```"@, end + 1);
            }
            s.subrange(from, start) + match find_from(s, "```"@, end + 1) {
                None => s.skip(from),
                Some(close) => s.subrange(end + 1, close) + unfenced_from(
                    s,
                    close + "```"@.len(),
                ),
            }
        },
    }
}

/// The code blocks of `s`.
pub open spec fn code_blocks(s: Seq<char>) -> Seq<CodeBlockView> {
    blocks_from(s, 0)
}

/// `s` without its fences.
pub open spec fn unfenced(s: Seq<char>) -> Seq<char> {
    unfenced_from(s, 0)
}

/// Tests whether a line feed follows every opening fence of `text`.
pub fn code_fences_ended(text: &str) -> (b: bool)
    ensures
        b == fences_ended(text@),
{
    let chars = chars_of(text);
    let fence = chars_of("```");
    proof {
        reveal_strlit("```");
    }
    let len: usize = chars.len();
    let mut pos: usize = 0;
    loop
        invariant
            chars@ == text@,
            fence@ == "```"@,
            fence@.len() == 3,
            len == chars@.len(),
            pos <= len,
            fences_ended_from(text@, pos as int) == fences_ended(text@),
        decreases len - pos,
    {
        match find_chars(&chars, &fence, pos) {
            None => {
                return true;
            },
            Some(start) => {
                let end: usize = position_of(&chars, '\n', start + 3);
                if end == len {
                    return false;
                }
                match find_chars(&chars, &fence, end + 1) {
                    None => {
                        return true;
                    },
                    Some(close) => {
                        pos = close + 3;
                    },
                }
            },
        }
    }
}

/// The code blocks of `text`, in order.
pub fn extract_code_blocks(text: &str) -> (blocks: Vec<CodeBlock>)
    requires
        fences_ended(text@),
    ensures
        block_views(blocks@) == code_blocks(text@),
{
    let chars = chars_of(text);
    let fence = chars_of("```");
    proof {
        reveal_strlit("```");
    }
    let len: usize = chars.len();
    let mut blocks: Vec<CodeBlock> = Vec::new();
    let mut pos: usize = 0;
    assert(block_views(blocks@) + code_blocks(text@) == code_blocks(text@));
    loop
        invariant
            chars@ == text@,
            fence@ == "```"@,
            fence@.len() == 3,
            len == chars@.len(),
            pos <= len,
            fences_ended_from(text@, pos as int),
            block_views(blocks@) + blocks_from(text@, pos as int) == code_blocks(text@),
        decreases len - pos,
    {
        let ghost before = block_views(blocks@);
        let start: usize = match find_chars(&chars, &fence, pos) {
            None => {
                assert(before == code_blocks(text@));
                return blocks;
            },
            Some(at) => at,
        };
        let info: usize = start + 3;
        let end: usize = position_of(&chars, '\n', info);
        let close: usize = match find_chars(&chars, &fence, end + 1) {
            None => {
                assert(before == code_blocks(text@));
                return blocks;
            },
            Some(at) => at,
        };
        let block = CodeBlock {
            language: trimmed_range(&chars, info, end),
            code: string_of(&chars, end + 1, close),
        };
        let ghost seen = block@;
        blocks.push(block);
        assert(block_views(blocks@) == before.push(seen));
        assert(before.push(seen) + blocks_from(text@, close + 3) == before + blocks_from(
            text@,
            pos as int,
        ));
        pos = close + 3;
    }
}

/// `text` without its fences: each block is left as its code alone.
pub fn strip_code_blocks(text: &str) -> (plain: String)
    requires
        fences_ended(text@),
    ensures
        plain@ == unfenced(text@),
{
    let chars = chars_of(text);
    let fence = chars_of("```");
    proof {
        reveal_strlit("```");
    }
    let len: usize = chars.len();
    let mut plain = String::new();
    let mut pos: usize = 0;
    assert(plain@ + unfenced(text@) == unfenced(text@));
    loop
        invariant
            chars@ == text@,
            fence@ == "```"@,
            fence@.len() == 3,
            len == chars@.len(),
            pos <= len,
            fences_ended_from(text@, pos as int),
            plain@ + unfenced_from(text@, pos as int) == unfenced(text@),
        decreases len - pos,
    {
        let ghost before = plain@;
        let start: usize = match find_chars(&chars, &fence, pos) {
            None => {
                let rest = string_of(&chars, pos, len);
                assert(rest@ == text@.skip(pos as int));
                plain.push_str(rest.as_str());
                return plain;
            },
            Some(at) => at,
        };
        let gap = string_of(&chars, pos, start);
        plain.push_str(gap.as_str());
        let end: usize = position_of(&chars, '\n', start + 3);
        match find_chars(&chars, &fence, end + 1) {
            None => {
                let rest = string_of(&chars, pos, len);
                assert(rest@ == text@.skip(pos as int));
                plain.push_str(rest.as_str());
                assert(before + (gap@ + rest@) == plain@);
                return plain;
            },
            Some(close) => {
                let code = string_of(&chars, end + 1, close);
                plain.push_str(code.as_str());
                let ghost tail = unfenced_from(text@, close + 3);
                assert(before + (gap@ + (code@ + tail)) == plain@ + tail);
                pos = close + 3;
            },
        }
    }
}

// ---------------------------------------------------------------------------
// Laws
// ---------------------------------------------------------------------------

proof fn lemma_enclosed_shift(
    front: Seq<char>,
    s: Seq<char>,
    open: Seq<char>,
    close: Seq<char>,
    from: int,
)
    requires
        0 <= from,
        close.len() > 0,
    ensures
        enclosed_from(front + s, open, close, front.len() + from) == enclosed_from(
            s,
            open,
            close,
            from,
        ),
    decreases s.len() - from,
{
    let whole = front + s;
    lemma_find_shift(front, s, open, from);
    lemma_find_from(s, open, from);
    if let Some(start) = find_from(s, open, from) {
        let inner = start + open.len();
        lemma_find_shift(front, s, close, inner);
        lemma_find_from(s, close, inner);
        if let Some(end) = find_from(s, close, inner) {
            assert(whole.subrange(front.len() + inner, front.len() + end) == s.subrange(
                inner,
                end,
            ));
            lemma_enclosed_shift(front, s, open, close, end + close.len());
        }
    }
}

proof fn lemma_outside_shift(
    front: Seq<char>,
    s: Seq<char>,
    open: Seq<char>,
    close: Seq<char>,
    from: int,
    repeat_rest: bool,
)
    requires
        0 <= from <= s.len(),
        close.len() > 0,
    ensures
        outside_from(front + s, open, close, front.len() + from, repeat_rest) == outside_from(
            s,
            open,
            close,
            from,
            repeat_rest,
        ),
    decreases s.len() - from,
{
    let whole = front + s;
    lemma_find_shift(front, s, open, from);
    lemma_find_from(s, open, from);
    assert(whole.skip(front.len() + from) == s.skip(from));
    if let Some(start) = find_from(s, open, from) {
        lemma_find_shift(front, s, close, start);
        lemma_find_from(s, close, start);
        assert(whole.subrange(front.len() + from, front.len() + start) == s.subrange(from, start));
        if let Some(end) = find_from(s, close, start) {
            lemma_outside_shift(front, s, open, close, end + close.len(), repeat_rest);
        }
    }
}

/// A section between two tags is found where it was put.
proof fn lemma_section(
    before: Seq<char>,
    open: Seq<char>,
    inside: Seq<char>,
    close: Seq<char>,
    behind: Seq<char>,
    repeat_rest: bool,
)
    requires
        open.len() > 1,
        close.len() > 1,
        open[1] != close[1],
        forall|k: int| 0 < k < open.len() ==> #[trigger] open[k] != open[0],
        forall|k: int| 0 < k < open.len() ==> #[trigger] open[k] != close[0],
        forall|k: int| 0 < k < close.len() ==> #[trigger] close[k] != close[0],
        !contains(before, open),
        !contains(inside, close),
    ensures
        enclosed_from(before + open + inside + close + behind, open, close, 0) == seq![
            trim(inside),
        ] + enclosed_from(behind, open, close, 0),
        outside_from(before + open + inside + close + behind, open, close, 0, repeat_rest)
            == before + outside_from(behind, open, close, 0, repeat_rest),
{
    let s = before + open + inside + close + behind;
    let start = before.len() as int;
    let inner = start + open.len();
    let end = inner + inside.len();
    // The opening tag is found in front of the section.
    assert(s == before + open + (inside + close + behind));
    lemma_find_first(before, open, inside + close + behind);
    // The closing tag is found behind it.
    lemma_find_first(inside, close, behind);
    lemma_find_shift(before + open, inside + close + behind, close, 0);
    assert(s == (before + open) + (inside + close + behind));
    assert(find_from(s, close, inner) == Some(end));
    // No closing tag starts inside the opening tag.
    lemma_find_from(s, close, inner);
    assert forall|i: int| start <= i < end implies !#[trigger] matches_at(s, close, i) by {
        if i < inner && matches_at(s, close, i) {
            assert(s[i] == open[i - start]);
            assert(s.subrange(i, i + close.len())[0] == close[0]);
            assert(s[i + 1] == s.subrange(i, i + close.len())[1]);
            if i == start {
                assert(s[i + 1] == open[1]);
            }
        }
    }
    lemma_find_unique(s, close, start, end);
    assert(s.subrange(inner, end) == inside);
    assert(s.subrange(0, start) == before);
    let front = before + open + inside + close;
    assert(s == front + behind);
    lemma_enclosed_shift(front, behind, open, close, 0);
    lemma_outside_shift(front, behind, open, close, 0, repeat_rest);
}

/// A tool call that a reply carries is read back exactly, without the white space
/// around it, ahead of the tool calls behind it; and cutting the tool calls out leaves
/// the text in front of it and what is left of the text behind it.
pub proof fn law_tool_call_read_and_removed(
    before: Seq<char>,
    payload: Seq<char>,
    behind: Seq<char>,
)
    requires
        !contains(before, "<tool_call>"@),
        !contains(payload, "</tool_call>"@),
    ensures
        tool_call_texts(before + "<tool_call>"@ + payload + "</tool_call>"@ + behind) == seq![
            trim(payload),
        ] + tool_call_texts(behind),
        outside_from(
            before + "<tool_call>"@ + payload + "</tool_call>"@ + behind,
            "<tool_call>"@,
            "</tool_call>"@,
            0,
            true,
        ) == before + outside_from(behind, "<tool_call>"@, "</tool_call>"@, 0, true),
{
    reveal_strlit("<tool_call>");
    reveal_strlit("</tool_call>");
    lemma_section(before, "<tool_call>"@, payload, "</tool_call>"@, behind, true);
}

/// A text with tool calls in it, each behind the text in `befores` that stands in front
/// of it, and `tail` behind the last.
pub open spec fn with_tool_calls(
    befores: Seq<Seq<char>>,
    payloads: Seq<Seq<char>>,
    tail: Seq<char>,
) -> Seq<char>
    decreases payloads.len(),
{
    if payloads.len() == 0 {
        tail
    } else {
        befores[0] + "<tool_call>"@ + payloads[0] + "</tool_call>"@ + with_tool_calls(
            befores.drop_first(),
            payloads.drop_first(),
            tail,
        )
    }
}

/// All tool calls of a reply are read, each exactly but for the white space around it,
/// and in their order.
pub proof fn law_tool_calls_read_in_order(
    befores: Seq<Seq<char>>,
    payloads: Seq<Seq<char>>,
    tail: Seq<char>,
)
    requires
        befores.len() == payloads.len(),
        forall|i: int|
            0 <= i < befores.len() ==> !contains(#[trigger] befores[i], "<tool_call>"@),
        forall|i: int|
            0 <= i < payloads.len() ==> !contains(#[trigger] payloads[i], "</tool_call>"@),
        !contains(tail, "<tool_call>"@),
    ensures
        tool_call_texts(with_tool_calls(befores, payloads, tail)) == Seq::new(
            payloads.len(),
            |i: int| trim(payloads[i]),
        ),
    decreases payloads.len(),
{
    reveal_strlit("</tool_call>");
    let wanted = Seq::new(payloads.len(), |i: int| trim(payloads[i]));
    if payloads.len() == 0 {
        lemma_find_from(tail, "<tool_call>"@, 0);
        assert(wanted =~= Seq::<Seq<char>>::empty());
    } else {
        let later_befores = befores.drop_first();
        let later = payloads.drop_first();
        assert forall|i: int| 0 <= i < later_befores.len() implies !contains(
            #[trigger] later_befores[i],
            "<tool_call>"@,
        ) by {
            assert(later_befores[i] == befores[i + 1]);
        }
        assert forall|i: int| 0 <= i < later.len() implies !contains(
            #[trigger] later[i],
            "</tool_call>"@,
        ) by {
            assert(later[i] == payloads[i + 1]);
        }
        law_tool_calls_read_in_order(later_befores, later, tail);
        law_tool_call_read_and_removed(
            befores[0],
            payloads[0],
            with_tool_calls(later_befores, later, tail),
        );
        assert(wanted =~= seq![trim(payloads[0])] + Seq::new(
            later.len(),
            |i: int| trim(later[i]),
        ));
    }
}

/// A thought in a reply is cut out: the text in front of it stays, and what is left of
/// the text behind it.
pub proof fn law_thought_removed(before: Seq<char>, thought: Seq<char>, behind: Seq<char>)
    requires
        !contains(before, "<think>"@),
        !contains(thought, "</think>"@),
    ensures
        outside_from(
            before + "<think>"@ + thought + "</think>"@ + behind,
            "<think>"@,
            "</think>"@,
            0,
            false,
        ) == before + outside_from(behind, "<think>"@, "</think>"@, 0, false),
        without_thoughts(before + "<think>"@ + thought + "</think>"@ + behind) == trim(
            before + outside_from(behind, "<think>"@, "</think>"@, 0, false),
        ),
{
    reveal_strlit("<think>");
    reveal_strlit("</think>");
    lemma_section(before, "<think>"@, thought, "</think>"@, behind, false);
}

/// A text with thoughts in it, each behind the text in `befores` that stands in front of
/// it, and `tail` behind the last.
pub open spec fn with_thoughts(
    befores: Seq<Seq<char>>,
    thoughts: Seq<Seq<char>>,
    tail: Seq<char>,
) -> Seq<char>
    decreases thoughts.len(),
{
    if thoughts.len() == 0 {
        tail
    } else {
        befores[0] + "<think>"@ + thoughts[0] + "</think>"@ + with_thoughts(
            befores.drop_first(),
            thoughts.drop_first(),
            tail,
        )
    }
}

/// What is put in front of texts stands in front of what they make.
proof fn lemma_joined_in_front(first: Seq<char>, rest: Seq<Seq<char>>, all: Seq<Seq<char>>)
    requires
        rest.len() > 0,
        all == seq![first] + rest,
    ensures
        joined(all, seq![]) == first + joined(rest, seq![]),
{
    law_joined(seq![first], rest, seq![]);
    assert(first + seq![] + joined(rest, seq![]) =~= first + joined(rest, seq![]));
}

proof fn lemma_calls_cut_out(
    befores: Seq<Seq<char>>,
    payloads: Seq<Seq<char>>,
    tail: Seq<char>,
)
    requires
        befores.len() == payloads.len(),
        forall|i: int|
            0 <= i < befores.len() ==> !contains(#[trigger] befores[i], "<tool_call>"@),
        forall|i: int|
            0 <= i < payloads.len() ==> !contains(#[trigger] payloads[i], "</tool_call>"@),
    ensures
        outside_from(
            with_tool_calls(befores, payloads, tail),
            "<tool_call>"@,
            "</tool_call>"@,
            0,
            true,
        ) == joined(
            befores.push(outside_from(tail, "<tool_call>"@, "</tool_call>"@, 0, true)),
            seq![],
        ),
    decreases payloads.len(),
{
    reveal_strlit("</tool_call>");
    let end = outside_from(tail, "<tool_call>"@, "</tool_call>"@, 0, true);
    if payloads.len() == 0 {
        assert(befores.push(end) =~= seq![end]);
    } else {
        let later_befores = befores.drop_first();
        let later = payloads.drop_first();
        assert forall|i: int| 0 <= i < later_befores.len() implies !contains(
            #[trigger] later_befores[i],
            "<tool_call>"@,
        ) by {
            assert(later_befores[i] == befores[i + 1]);
        }
        assert forall|i: int| 0 <= i < later.len() implies !contains(
            #[trigger] later[i],
            "</tool_call>"@,
        ) by {
            assert(later[i] == payloads[i + 1]);
        }
        lemma_calls_cut_out(later_befores, later, tail);
        law_tool_call_read_and_removed(
            befores[0],
            payloads[0],
            with_tool_calls(later_befores, later, tail),
        );
        assert(befores.push(end) =~= seq![befores[0]] + later_befores.push(end));
        lemma_joined_in_front(befores[0], later_befores.push(end), befores.push(end));
    }
}

proof fn lemma_thoughts_cut_out(
    befores: Seq<Seq<char>>,
    thoughts: Seq<Seq<char>>,
    tail: Seq<char>,
)
    requires
        befores.len() == thoughts.len(),
        forall|i: int| 0 <= i < befores.len() ==> !contains(#[trigger] befores[i], "<think>"@),
        forall|i: int| 0 <= i < thoughts.len() ==> !contains(#[trigger] thoughts[i], "</think>"@),
    ensures
        outside_from(
            with_thoughts(befores, thoughts, tail),
            "<think>"@,
            "</think>"@,
            0,
            false,
        ) == joined(
            befores.push(outside_from(tail, "<think>"@, "</think>"@, 0, false)),
            seq![],
        ),
    decreases thoughts.len(),
{
    reveal_strlit("</think>");
    let end = outside_from(tail, "<think>"@, "</think>"@, 0, false);
    if thoughts.len() == 0 {
        assert(befores.push(end) =~= seq![end]);
    } else {
        let later_befores = befores.drop_first();
        let later = thoughts.drop_first();
        assert forall|i: int| 0 <= i < later_befores.len() implies !contains(
            #[trigger] later_befores[i],
            "<think>"@,
        ) by {
            assert(later_befores[i] == befores[i + 1]);
        }
        assert forall|i: int| 0 <= i < later.len() implies !contains(
            #[trigger] later[i],
            "</think>"@,
        ) by {
            assert(later[i] == thoughts[i + 1]);
        }
        lemma_thoughts_cut_out(later_befores, later, tail);
        law_thought_removed(befores[0], thoughts[0], with_thoughts(later_befores, later, tail));
        assert(befores.push(end) =~= seq![befores[0]] + later_befores.push(end));
        lemma_joined_in_front(befores[0], later_befores.push(end), befores.push(end));
    }
}

/// Of a reply all that stands outside its thoughts is kept, in its order, without the
/// white space around it.
pub proof fn law_text_around_thoughts_is_kept(
    befores: Seq<Seq<char>>,
    thoughts: Seq<Seq<char>>,
    tail: Seq<char>,
)
    requires
        befores.len() == thoughts.len(),
        forall|i: int| 0 <= i < befores.len() ==> !contains(#[trigger] befores[i], "<think>"@),
        forall|i: int| 0 <= i < thoughts.len() ==> !contains(#[trigger] thoughts[i], "</think>"@),
        !contains(tail, "<think>"@),
    ensures
        without_thoughts(with_thoughts(befores, thoughts, tail)) == trim(
            joined(befores.push(tail), seq![]),
        ),
{
    reveal_strlit("</think>");
    lemma_thoughts_cut_out(befores, thoughts, tail);
    lemma_find_from(tail, "<think>"@, 0);
    assert(tail.skip(0) =~= tail);
}

/// Of a reply all that stands outside its tool calls is kept, in its order, and from that
/// the thoughts are cut out; where there are none, it is kept as it is but for the white
/// space around it.
pub proof fn law_text_around_calls_is_kept(
    befores: Seq<Seq<char>>,
    payloads: Seq<Seq<char>>,
    tail: Seq<char>,
)
    requires
        befores.len() == payloads.len(),
        forall|i: int|
            0 <= i < befores.len() ==> !contains(#[trigger] befores[i], "<tool_call>"@),
        forall|i: int|
            0 <= i < payloads.len() ==> !contains(#[trigger] payloads[i], "</tool_call>"@),
        !contains(tail, "<tool_call>"@),
    ensures
        ({
            let kept = trim(joined(befores.push(tail), seq![]));
            let text = without_tool_calls(with_tool_calls(befores, payloads, tail));
            &&& text == without_thoughts(kept)
            &&& !contains(kept, "<think>"@) ==> text == kept
        }),
{
    reveal_strlit("</think>");
    reveal_strlit("</tool_call>");
    lemma_calls_cut_out(befores, payloads, tail);
    lemma_find_from(tail, "<tool_call>"@, 0);
    assert(tail.skip(0) =~= tail);
    let kept = trim(joined(befores.push(tail), seq![]));
    lemma_find_from(kept, "<think>"@, 0);
    assert(kept.skip(0) =~= kept);
    lemma_trim_idempotent(joined(befores.push(tail), seq![]));
}

/// What follows a tag that is never closed: a tool call that is not closed is not read and
/// stays in the text, behind a second copy of what stands between it and the last that is.
pub proof fn law_call_that_is_not_closed(
    befores: Seq<Seq<char>>,
    payloads: Seq<Seq<char>>,
    before: Seq<char>,
    rest: Seq<char>,
)
    requires
        befores.len() == payloads.len(),
        forall|i: int|
            0 <= i < befores.len() ==> !contains(#[trigger] befores[i], "<tool_call>"@),
        forall|i: int|
            0 <= i < payloads.len() ==> !contains(#[trigger] payloads[i], "</tool_call>"@),
        !contains(before, "<tool_call>"@),
        !contains("<tool_call>"@ + rest, "</tool_call>"@),
    ensures
        ({
            let tail = before + "<tool_call>"@ + rest;
            &&& tool_call_texts(tail).len() == 0
            &&& without_tool_calls(with_tool_calls(befores, payloads, tail)) == without_thoughts(
                trim(joined(befores.push(before + tail), seq![])),
            )
        }),
{
    reveal_strlit("<tool_call>");
    reveal_strlit("</tool_call>");
    lemma_not_closed(before, "<tool_call>"@, rest, "</tool_call>"@);
    lemma_calls_cut_out(befores, payloads, before + "<tool_call>"@ + rest);
}

/// A thought that is not closed is cut off with all that follows.
pub proof fn law_thought_that_is_not_closed(
    befores: Seq<Seq<char>>,
    thoughts: Seq<Seq<char>>,
    before: Seq<char>,
    rest: Seq<char>,
)
    requires
        befores.len() == thoughts.len(),
        forall|i: int| 0 <= i < befores.len() ==> !contains(#[trigger] befores[i], "<think>"@),
        forall|i: int| 0 <= i < thoughts.len() ==> !contains(#[trigger] thoughts[i], "</think>"@),
        !contains(before, "<think>"@),
        !contains("<think>"@ + rest, "</think>"@),
    ensures
        without_thoughts(with_thoughts(befores, thoughts, before + "<think>"@ + rest)) == trim(
            joined(befores.push(before), seq![]),
        ),
{
    reveal_strlit("<think>");
    reveal_strlit("</think>");
    lemma_not_closed(before, "<think>"@, rest, "</think>"@);
    lemma_thoughts_cut_out(befores, thoughts, before + "<think>"@ + rest);
}

proof fn lemma_not_closed(before: Seq<char>, open: Seq<char>, rest: Seq<char>, close: Seq<char>)
    requires
        open.len() > 0,
        close.len() > 0,
        forall|k: int| 0 < k < open.len() ==> #[trigger] open[k] != open[0],
        !contains(before, open),
        !contains(open + rest, close),
    ensures
        enclosed_from(before + open + rest, open, close, 0).len() == 0,
        outside_from(before + open + rest, open, close, 0, true) == before + (before + open + rest),
        outside_from(before + open + rest, open, close, 0, false) == before,
{
    let s = before + open + rest;
    let start = before.len() as int;
    lemma_find_first(before, open, rest);
    lemma_find_from(open + rest, close, 0);
    lemma_find_from(open + rest, close, open.len() as int);
    lemma_find_shift(before, open + rest, close, 0);
    lemma_find_shift(before, open + rest, close, open.len() as int);
    assert(s == before + (open + rest));
    assert(find_from(s, close, start) is None);
    assert(find_from(s, close, start + open.len()) is None);
    assert(s.subrange(0, start) =~= before);
    assert(s.skip(0) =~= s);
    assert(before + Seq::<char>::empty() =~= before);
}

/// A reply without tool calls and thoughts holds no tool call, and cleaning it up does
/// no more than take the white space around it away.
pub proof fn law_plain_reply_kept(s: Seq<char>)
    requires
        !contains(s, "<tool_call>"@),
        !contains(trim(s), "<think>"@),
    ensures
        tool_call_texts(s) == Seq::<Seq<char>>::empty(),
        without_tool_calls(s) == trim(s),
{
    reveal_strlit("</tool_call>");
    reveal_strlit("</think>");
    lemma_find_from(s, "<tool_call>"@, 0);
    lemma_find_from(trim(s), "<think>"@, 0);
    assert(s.skip(0) == s);
    assert(trim(s).skip(0) == trim(s));
    lemma_trim_idempotent(s);
}

/// Text without a fence holds no code block and is displayed as it is.
pub proof fn law_unfenced_text_kept(s: Seq<char>)
    requires
        !contains(s, "```"@),
    ensures
        fences_ended(s),
        code_blocks(s) == Seq::<CodeBlockView>::empty(),
        unfenced(s) == s,
{
    lemma_find_from(s, "```"@, 0);
    assert(s.skip(0) == s);
}

proof fn lemma_index_shift(front: Seq<char>, s: Seq<char>, c: char, from: int)
    requires
        0 <= from <= s.len(),
    ensures
        index_of(front + s, c, front.len() + from) == front.len() + index_of(s, c, from),
    decreases s.len() - from,
{
    if from < s.len() && s[from] != c {
        lemma_index_shift(front, s, c, from + 1);
    }
}

proof fn lemma_fences_shift(front: Seq<char>, s: Seq<char>, from: int)
    requires
        0 <= from <= s.len(),
    ensures
        blocks_from(front + s, front.len() + from) == blocks_from(s, from),
        unfenced_from(front + s, front.len() + from) == unfenced_from(s, from),
        fences_ended_from(front + s, front.len() + from) == fences_ended_from(s, from),
    decreases s.len() - from,
{
    reveal_strlit("```");
    let whole = front + s;
    lemma_find_shift(front, s, "```"@, from);
    lemma_find_from(s, "```"@, from);
    assert(whole.skip(front.len() + from) == s.skip(from));
    if let Some(start) = find_from(s, "```"@, from) {
        let info = start + "```"@.len();
        lemma_index_shift(front, s, '\n', info);
        lemma_index_of(s, '\n', info);
        let end = index_of(s, '\n', info);
        assert(whole.subrange(front.len() + from, front.len() + start) == s.subrange(from, start));
        lemma_find_shift(front, s, "```"@, end + 1);
        lemma_find_from(s, "```"@, end + 1);
        if let Some(close) = find_from(s, "```"@, end + 1) {
            assert(whole.subrange(front.len() + info, front.len() + end) == s.subrange(info, end));
            assert(whole.subrange(front.len() + end + 1, front.len() + close) == s.subrange(
                end + 1,
                close,
            ));
            lemma_fences_shift(front, s, close + "```"@.len());
        }
    }
}

/// Whether a fence right behind `s` is the first: there is none in `s`, and no backtick
/// at its end would make one with it.
pub open spec fn keeps_fence_apart(s: Seq<char>) -> bool {
    !contains(s, "```"@) && (s.len() > 0 ==> s.last() != '`')
}

/// A fence behind such a text is found right there.
proof fn lemma_find_fence(before: Seq<char>, behind: Seq<char>)
    requires
        keeps_fence_apart(before),
    ensures
        find_from(before + "```"@ + behind, "```"@, 0) == Some(before.len() as int),
{
    reveal_strlit("```");
    let s = before + "```"@ + behind;
    let at = before.len() as int;
    assert(s.subrange(at, at + 3) == "```"@);
    assert forall|i: int| 0 <= i < at implies !#[trigger] matches_at(s, "```"@, i) by {
        if matches_at(s, "```"@, i) {
            if i + 3 <= at {
                assert(before.subrange(i, i + 3) =~= s.subrange(i, i + 3));
                assert(matches_at(before, "```"@, i));
            } else {
                assert(s.subrange(i, i + 3)[at - 1 - i] == s[at - 1]);
                assert(s[at - 1] == before.last());
            }
        }
    }
    lemma_find_unique(s, "```"@, 0, at);
}

/// A code block is read back with its language and its code, ahead of the blocks behind
/// it; where fences are taken out, its code stays between the text in front of it and
/// what is left of the text behind it.
pub proof fn law_code_block_read_and_unfenced(
    before: Seq<char>,
    info: Seq<char>,
    code: Seq<char>,
    behind: Seq<char>,
)
    requires
        keeps_fence_apart(before),
        forall|i: int| 0 <= i < info.len() ==> #[trigger] info[i] != '\n',
        keeps_fence_apart(code),
    ensures
        ({
            let s = before + "```"@ + info + "\n"@ + code + "```"@ + behind;
            &&& code_blocks(s) == seq![
                CodeBlockView { language: trim(info), code },
            ] + code_blocks(behind)
            &&& unfenced(s) == before + (code + unfenced(behind))
            &&& fences_ended(s) == fences_ended(behind)
        }),
{
    reveal_strlit("```");
    reveal_strlit("\n");
    let s = before + "```"@ + info + "\n"@ + code + "```"@ + behind;
    let start = before.len() as int;
    let inner = start + 3;
    let end = inner + info.len();
    let close = end + 1 + code.len();
    assert(s == before + "```"@ + (info + "\n"@ + code + "```"@ + behind));
    lemma_find_fence(before, info + "\n"@ + code + "```"@ + behind);
    // The line that names the language ends at the first line feed.
    lemma_index_of(s, '\n', inner);
    assert(s[end] == '\n');
    assert forall|i: int| inner <= i < end implies s[i] != '\n' by {
        assert(s[i] == info[i - inner]);
    }
    assert(index_of(s, '\n', inner) == end);
    // The next fence ends the code.
    let front = before + "```"@ + info + "\n"@;
    lemma_find_fence(code, behind);
    lemma_find_shift(front, code + "```"@ + behind, "```"@, 0);
    assert(s == front + (code + "```"@ + behind));
    assert(find_from(s, "```"@, end + 1) == Some(close));
    assert(s.subrange(0, start) == before);
    assert(s.subrange(inner, end) == info);
    assert(s.subrange(end + 1, close) == code);
    let whole = front + code + "```"@;
    assert(s == whole + behind);
    lemma_fences_shift(whole, behind, 0);
}

/// A fence that is never closed makes no block; the text is then shown whole, behind a
/// second copy of what stands in front of the fence. A fence whose line does not end is no
/// fence that can be shown.
pub proof fn law_fences_that_are_not_closed(before: Seq<char>, info: Seq<char>, code: Seq<char>)
    requires
        keeps_fence_apart(before),
        forall|i: int| 0 <= i < info.len() ==> #[trigger] info[i] != '\n',
        !contains(code, "```"@),
    ensures
        ({
            let s = before + "```"@ + info + "\n"@ + code;
            &&& code_blocks(s).len() == 0
            &&& unfenced(s) == before + s
            &&& fences_ended(s)
        }),
        !fences_ended(before + "```"@ + info),
{
    reveal_strlit("```");
    reveal_strlit("\n");
    let s = before + "```"@ + info + "\n"@ + code;
    let start = before.len() as int;
    let inner = start + 3;
    let end = inner + info.len();
    assert(s == before + "```"@ + (info + "\n"@ + code));
    lemma_find_fence(before, info + "\n"@ + code);
    lemma_index_of(s, '\n', inner);
    assert(s[end] == '\n');
    assert forall|i: int| inner <= i < end implies s[i] != '\n' by {
        assert(s[i] == info[i - inner]);
    }
    assert(index_of(s, '\n', inner) == end);
    let front = before + "```"@ + info + "\n"@;
    lemma_find_from(code, "```"@, 0);
    lemma_find_shift(front, code, "```"@, 0);
    assert(s == front + code);
    assert(find_from(s, "```"@, end + 1) is None);
    assert(s.subrange(0, start) =~= before);
    assert(s.skip(0) =~= s);
    let open = before + "```"@ + info;
    lemma_find_fence(before, info);
    lemma_index_of(open, '\n', inner);
    assert forall|i: int| inner <= i < open.len() implies open[i] != '\n' by {
        assert(open[i] == info[i - inner]);
    }
}

/// Where the code of each block of `s` begins, from position `from` on.
pub open spec fn code_starts_from(s: Seq<char>, from: int) -> Seq<int>
    decreases s.len() - from,
    when 0 <= from
{
    proof {
        reveal_strlit("```");
        lemma_find_from(s, "```"@, from);
    }
    match find_from(s, "```"@, from) {
        None => seq![],
        Some(start) => {
            let info = start + "```"@.len();
            let end = index_of(s, '\n', info);
            proof {
                lemma_index_of(s, '\n', info);
                lemma_find_from(s, "```"@, end + 1);
            }
            match find_from(s, "```"@, end + 1) {
                None => seq![],
                Some(close) => seq![end + 1] + code_starts_from(s, close + "```"@.len()),
            }
        },
    }
}

/// Whether `block` is the code of `s` at `start`: the code stands there and holds no
/// fence, and its language is one line without white space around it.
pub open spec fn is_block_at(s: Seq<char>, block: CodeBlockView, start: int) -> bool {
    &&& 0 <= start
    &&& start + block.code.len() <= s.len()
    &&& s.subrange(start, start + block.code.len()) == block.code
    &&& !contains(block.code, "```"@)
    &&& trim(block.language) == block.language
    &&& !block.language.contains('\n')
}

proof fn lemma_blocks(s: Seq<char>, from: int)
    requires
        0 <= from,
    ensures
        blocks_from(s, from).len() == code_starts_from(s, from).len(),
        forall|i: int|
            0 <= i < blocks_from(s, from).len() ==> from < #[trigger] code_starts_from(s, from)[i]
                && is_block_at(s, blocks_from(s, from)[i], code_starts_from(s, from)[i]),
        forall|i: int, j: int|
            0 <= i < j < blocks_from(s, from).len() ==> #[trigger] code_starts_from(s, from)[i]
                + blocks_from(s, from)[i].code.len() < #[trigger] code_starts_from(s, from)[j],
    decreases s.len() - from,
{
    reveal_strlit("```");
    lemma_find_from(s, "```"@, from);
    if let Some(start) = find_from(s, "```"@, from) {
        let info = start + "```"@.len();
        let end = index_of(s, '\n', info);
        lemma_index_of(s, '\n', info);
        lemma_find_from(s, "```"@, end + 1);
        if let Some(close) = find_from(s, "```"@, end + 1) {
            let next = close + "```"@.len();
            lemma_blocks(s, next);
            let line = s.subrange(info, end);
            let block = CodeBlockView { language: trim(line), code: s.subrange(end + 1, close) };
            lemma_trim_idempotent(line);
            if block.language.contains('\n') {
                crate::text::lemma_trim_adds_nothing(line, '\n');
                let k = choose|k: int| 0 <= k < line.len() && line[k] == '\n';
                assert(s[info + k] == '\n');
            }
            if contains(block.code, "```"@) {
                let k = choose|k: int| #[trigger] matches_at(block.code, "```"@, k);
                assert(s.subrange(end + 1 + k, end + 1 + k + 3) =~= block.code.subrange(k, k + 3));
                assert(matches_at(s, "```"@, end + 1 + k));
            }
            assert(is_block_at(s, block, end + 1));
            let later = blocks_from(s, next);
            let later_starts = code_starts_from(s, next);
            let blocks = blocks_from(s, from);
            let starts = code_starts_from(s, from);
            assert(blocks =~= seq![block] + later);
            assert(starts =~= seq![end + 1] + later_starts);
            assert forall|i: int| 0 <= i < blocks.len() implies from < #[trigger] starts[i]
                && is_block_at(s, blocks[i], starts[i]) by {
                if i > 0 {
                    assert(starts[i] == later_starts[i - 1]);
                    assert(blocks[i] == later[i - 1]);
                }
            }
            assert forall|i: int, j: int| 0 <= i < j < blocks.len() implies #[trigger] starts[i]
                + blocks[i].code.len() < #[trigger] starts[j] by {
                assert(starts[j] == later_starts[j - 1]);
                if i > 0 {
                    assert(starts[i] == later_starts[i - 1]);
                    assert(blocks[i] == later[i - 1]);
                }
            }
        }
    }
}

/// The code blocks of a text stand in it in their order, none overlapping another; their
/// code holds no fence, and their languages are single lines without white space around.
pub proof fn law_code_blocks_stand_in_the_text(s: Seq<char>)
    ensures
        code_blocks(s).len() == code_starts_from(s, 0).len(),
        forall|i: int|
            0 <= i < code_blocks(s).len() ==> is_block_at(
                s,
                code_blocks(s)[i],
                #[trigger] code_starts_from(s, 0)[i],
            ),
        forall|i: int, j: int|
            0 <= i < j < code_blocks(s).len() ==> #[trigger] code_starts_from(s, 0)[i]
                + code_blocks(s)[i].code.len() < #[trigger] code_starts_from(s, 0)[j],
{
    lemma_blocks(s, 0);
}

} // verus!
