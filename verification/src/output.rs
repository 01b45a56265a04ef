//! What tools report: numbered lines, listings, and the output of commands, cut down to
//! a size that a model can take.

use vstd::prelude::*;

use crate::lines::{join, joined, lines, lines_of};
use crate::number::{align_right, decimal, decimal_text, right_aligned, signed_decimal, signed_text};
use crate::sorting::{item_views, ordered, sort, Ranked};
use crate::text::{
    blank, byte_len, chars_of, is_blank, prefix, string_of, take_chars, trim, trim_end, trimmed,
    trimmed_end, utf8_len, views,
};

verus! {

/// The most bytes that a tool reports in one piece.
pub const MAX_TOOL_OUTPUT_BYTES: usize = 30_000;

/// How many characters are kept at each end of a longer report.
pub const KEPT_AT_EACH_END: usize = 15_000;

/// The most files that a search for files lists.
pub const MAX_GLOB_MATCHES: usize = 1000;

// ---------------------------------------------------------------------------
// Truncation
// ---------------------------------------------------------------------------

/// The last `n` characters, or all of them when there are fewer.
pub open spec fn suffix(s: Seq<char>, n: nat) -> Seq<char> {
    if n < s.len() {
        s.skip(s.len() - n)
    } else {
        s
    }
}

/// The number of bytes left out between two ends of `output`, modulo 2^64: the ends
/// overlap where many characters take several bytes.
pub open spec fn omitted_bytes(output: Seq<char>, head: Seq<char>, tail: Seq<char>) -> nat {
    ((utf8_len(output) - utf8_len(head) - utf8_len(tail)) % 0x1_0000_0000_0000_0000) as nat
}

/// `output`, or its two ends where it is too long.
pub open spec fn truncated(output: Seq<char>) -> Seq<char> {
    if utf8_len(output) <= MAX_TOOL_OUTPUT_BYTES {
        output
    } else {
        let head = prefix(output, KEPT_AT_EACH_END as nat);
        let tail = suffix(output, KEPT_AT_EACH_END as nat);
        head + "\n\n[... output truncated, "@ + decimal(omitted_bytes(output, head, tail))
            + " characters omitted ...]\n\n"@ + tail
    }
}

/// A report that is short enough is passed on as it is; of any other, at most
/// 30,000 characters are kept.
pub proof fn law_truncated_size(output: Seq<char>)
    ensures
        utf8_len(output) <= MAX_TOOL_OUTPUT_BYTES ==> truncated(output) == output,
        utf8_len(output) > MAX_TOOL_OUTPUT_BYTES ==> {
            let head = prefix(output, KEPT_AT_EACH_END as nat);
            let tail = suffix(output, KEPT_AT_EACH_END as nat);
            &&& head.len() + tail.len() <= MAX_TOOL_OUTPUT_BYTES
            &&& truncated(output).take(head.len() as int) == head
            &&& truncated(output).skip(truncated(output).len() - tail.len()) == tail
        },
{
    if utf8_len(output) > MAX_TOOL_OUTPUT_BYTES {
        let head = prefix(output, KEPT_AT_EACH_END as nat);
        let tail = suffix(output, KEPT_AT_EACH_END as nat);
        let whole = truncated(output);
        assert(whole.take(head.len() as int) =~= head);
        assert(whole.skip(whole.len() - tail.len()) =~= tail);
    }
}

/// Between two ends that do not overlap, exactly the bytes in between are left out.
pub proof fn law_omitted_between_ends(head: Seq<char>, middle: Seq<char>, tail: Seq<char>)
    requires
        utf8_len(middle) < 0x1_0000_0000_0000_0000,
    ensures
        omitted_bytes(head + middle + tail, head, tail) == utf8_len(middle),
{
    crate::text::lemma_utf8_len_concat(head + middle, tail);
    crate::text::lemma_utf8_len_concat(head, middle);
}

/// Of a report of more than 30,000 bytes, 15,000 characters are kept at each end as they
/// are, and a note between them counts the bytes that stood there.
pub proof fn law_long_report_keeps_its_ends(
    head: Seq<char>,
    middle: Seq<char>,
    tail: Seq<char>,
)
    requires
        head.len() == 15_000,
        tail.len() == 15_000,
        utf8_len(head + middle + tail) > 30_000,
        utf8_len(middle) < 0x1_0000_0000_0000_0000,
    ensures
        truncated(head + middle + tail) == head + "\n\n[... output truncated, "@ + decimal(
            utf8_len(middle),
        ) + " characters omitted ...]\n\n"@ + tail,
{
    let output = head + middle + tail;
    assert(prefix(output, 15_000) =~= head);
    assert(suffix(output, 15_000) =~= tail);
    law_omitted_between_ends(head, middle, tail);
}

/// Where fewer than 30,000 characters take more than 30,000 bytes, the two ends overlap:
/// each is still 15,000 characters long, or the whole report where that has no more.
pub proof fn law_wide_report_keeps_its_ends(output: Seq<char>, head: Seq<char>, tail: Seq<char>)
    requires
        utf8_len(output) > 30_000,
        head.len() == tail.len() == (if output.len() < 15_000 {
            output.len() as int
        } else {
            15_000
        }),
        output.take(head.len() as int) == head,
        output.skip(output.len() - tail.len()) == tail,
    ensures
        truncated(output) == head + "\n\n[... output truncated, "@ + decimal(
            ((utf8_len(output) - utf8_len(head) - utf8_len(tail)) % 0x1_0000_0000_0000_0000) as nat,
        ) + " characters omitted ...]\n\n"@ + tail,
{
    assert(prefix(output, 15_000) =~= head);
    assert(suffix(output, 15_000) =~= tail);
}

/// `output`, or its two ends where it is too long.
pub fn truncate_output(output: &str) -> (short: String)
    ensures
        short@ == truncated(output@),
{
    let size: usize = byte_len(output);
    if size <= MAX_TOOL_OUTPUT_BYTES {
        return output.to_owned();
    }
    let chars = chars_of(output);
    let n: usize = chars.len();
    let head = take_chars(output, KEPT_AT_EACH_END);
    let start: usize = if n > KEPT_AT_EACH_END { n - KEPT_AT_EACH_END } else { 0 };
    let tail = string_of(&chars, start, n);
    assert(tail@ =~= suffix(output@, KEPT_AT_EACH_END as nat));
    let head_size: u64 = byte_len(head.as_str()) as u64;
    let tail_size: u64 = byte_len(tail.as_str()) as u64;
    let omitted: u64 = (size as u64).wrapping_sub(head_size).wrapping_sub(tail_size);
    assert(omitted == omitted_bytes(output@, head@, tail@));
    let mut short = head;
    short.push_str("\n\n[... output truncated, ");
    short.push_str(decimal_text(omitted as u128).as_str());
    short.push_str(" characters omitted ...]\n\n");
    short.push_str(tail.as_str());
    short
}

// ---------------------------------------------------------------------------
// Numbered lines
// ---------------------------------------------------------------------------

/// At most `limit` members of `list`, without the first `offset`.
pub open spec fn window(list: Seq<Seq<char>>, offset: nat, limit: nat) -> Seq<Seq<char>> {
    if offset >= list.len() {
        seq![]
    } else if offset + limit >= list.len() {
        list.skip(offset as int)
    } else {
        list.subrange(offset as int, (offset + limit) as int)
    }
}

/// The line `line` with its number in front.
pub open spec fn numbered_line(number: nat, line: Seq<char>) -> Seq<char> {
    right_aligned(decimal(number), 6) + "\t"@ + line + "\n"@
}

/// `list` with numbers in front, the first of them `offset + 1`.
pub open spec fn numbered(list: Seq<Seq<char>>, offset: nat) -> Seq<char>
    decreases list.len(),
{
    if list.len() == 0 {
        seq![]
    } else {
        numbered(list.drop_last(), offset) + numbered_line(offset + list.len(), list.last())
    }
}

/// What reading `limit` lines of a file behind the first `offset` reports.
pub open spec fn file_report(content: Seq<char>, offset: nat, limit: nat) -> Seq<char> {
    let all = lines(content);
    let shown = window(all, offset, limit);
    let body = numbered(shown, offset);
    (if utf8_len(body) > MAX_TOOL_OUTPUT_BYTES {
        prefix(body, MAX_TOOL_OUTPUT_BYTES as nat) + "\n[... file truncated ...]"@
    } else {
        body
    }) + ("\n["@ + decimal(shown.len()) + " of "@ + decimal(all.len()) + " total lines]"@)
}

/// The lines that are shown are those of the file behind the first `offset`, in their
/// order: as many as are wanted, or as there are.
pub proof fn law_window(list: Seq<Seq<char>>, offset: nat, limit: nat)
    ensures
        window(list, offset, limit).len() == if offset >= list.len() {
            0
        } else if limit <= list.len() - offset {
            limit as int
        } else {
            list.len() - offset
        },
        forall|i: int|
            0 <= i < window(list, offset, limit).len() ==> #[trigger] window(list, offset, limit)[i]
                == list[offset + i],
{
}

/// Each line is shown by itself, behind its number: at least six characters wide and a
/// tab. The lines that follow others are numbered on from them.
pub proof fn law_lines_are_numbered_on(
    front: Seq<Seq<char>>,
    back: Seq<Seq<char>>,
    line: Seq<char>,
    offset: nat,
)
    ensures
        numbered(seq![], offset) == Seq::<char>::empty(),
        numbered(seq![line], offset) == right_aligned(decimal(offset + 1), 6) + "\t"@ + line
            + "\n"@,
        numbered(front + back, offset) == numbered(front, offset) + numbered(
            back,
            offset + front.len(),
        ),
    decreases back.len(),
{
    reveal_with_fuel(numbered, 2);
    assert(seq![line].drop_last() =~= Seq::<Seq<char>>::empty());
    assert(numbered(seq![line], offset) =~= numbered_line(offset + 1, line));
    if back.len() > 0 {
        law_lines_are_numbered_on(front, back.drop_last(), line, offset);
        assert((front + back).drop_last() =~= front + back.drop_last());
        assert((front + back).last() == back.last());
        assert(numbered(front + back, offset) =~= numbered(front, offset) + numbered(
            back,
            offset + front.len(),
        ));
    } else {
        assert(front + back =~= front);
        assert(numbered(front, offset) + numbered(back, offset + front.len()) =~= numbered(
            front,
            offset,
        ));
    }
}

/// A file that consists of three runs of lines, read behind the first run and no further
/// than the second, is reported with exactly the lines of the second, numbered from where
/// they stand in the file, and with their number and that of all lines. A report of more
/// than 30,000 bytes keeps its first 30,000 characters.
pub proof fn law_asked_lines_are_reported(
    content: Seq<char>,
    above: Seq<Seq<char>>,
    shown: Seq<Seq<char>>,
    below: Seq<Seq<char>>,
    limit: nat,
)
    requires
        lines(content) == above + shown + below,
        shown.len() == limit || (shown.len() < limit && below.len() == 0),
    ensures
        ({
            let body = numbered(shown, above.len());
            let note = "\n["@ + decimal(shown.len()) + " of "@ + decimal(
                above.len() + shown.len() + below.len(),
            ) + " total lines]"@;
            &&& utf8_len(body) <= 30_000 ==> file_report(content, above.len(), limit) == body + note
            &&& utf8_len(body) > 30_000 ==> file_report(content, above.len(), limit) == (
            if body.len() > 30_000 {
                body.take(30_000)
            } else {
                body
            }) + "\n[... file truncated ...]"@ + note
        }),
{
    let all = lines(content);
    assert(window(all, above.len(), limit) =~= shown);
}

/// Behind the last line of a file there is nothing to show.
pub proof fn law_nothing_behind_the_last_line(content: Seq<char>, offset: nat, limit: nat)
    requires
        offset >= lines(content).len(),
    ensures
        file_report(content, offset, limit) == "\n["@ + decimal(0) + " of "@ + decimal(
            lines(content).len(),
        ) + " total lines]"@,
{
    let body = numbered(seq![], offset);
    assert(body =~= Seq::<char>::empty());
    assert(utf8_len(body) == 0) by {
        crate::text::lemma_utf8_len_concat(body, body);
        assert(body + body =~= body);
    }
    assert(window(lines(content), offset, limit) =~= seq![]);
    let note = "\n["@ + decimal(0) + " of "@ + decimal(lines(content).len()) + " total lines]"@;
    assert(body + note =~= note);
}

/// Reports `limit` lines of a file behind the first `offset`, with their numbers.
pub fn report_file(content: &str, offset: u64, limit: u64) -> (report: String)
    ensures
        report@ == file_report(content@, offset as nat, limit as nat),
{
    let all = lines_of(content);
    let total: usize = all.len();
    let ghost listed = views(all@);
    let ghost shown = window(listed, offset as nat, limit as nat);
    let mut body = String::new();
    let mut count: u64 = 0;
    assert(shown.take(0) =~= Seq::<Seq<char>>::empty());
    while count < limit && offset < total as u64 && count < total as u64 - offset
        invariant
            total == all@.len(),
            listed == views(all@),
            shown == window(listed, offset as nat, limit as nat),
            count <= shown.len(),
            count <= limit,
            offset < total ==> count <= total - offset,
            body@ == numbered(shown.take(count as int), offset as nat),
        decreases limit - count,
    {
        let at: usize = (offset + count) as usize;
        let number = decimal_text(at as u128 + 1);
        proof {
            assert(shown[count as int] == listed[at as int]);
            assert(shown.take(count + 1).drop_last() =~= shown.take(count as int));
            assert(shown.take(count + 1).last() == all@[at as int]@);
        }
        let ghost before = body@;
        let mut line: String = align_right(number.as_str(), 6);
        line.push_str("\t");
        line.push_str(all[at].as_str());
        line.push_str("\n");
        body.push_str(line.as_str());
        count = count + 1;
    }
    assert(shown.len() == count);
    assert(shown.take(count as int) =~= shown);
    let mut note: String = "\n[".to_owned();
    note.push_str(decimal_text(count as u128).as_str());
    note.push_str(" of ");
    note.push_str(decimal_text(total as u128).as_str());
    note.push_str(" total lines]");
    let mut report: String = body;
    if byte_len(report.as_str()) > MAX_TOOL_OUTPUT_BYTES {
        report = take_chars(report.as_str(), MAX_TOOL_OUTPUT_BYTES);
        report.push_str("\n[... file truncated ...]");
    }
    report.push_str(note.as_str());
    report
}

// ---------------------------------------------------------------------------
// Commands
// ---------------------------------------------------------------------------

/// What a command wrote to its two streams, without white space at their ends.
pub open spec fn combined_output(stdout: Seq<char>, stderr: Seq<char>) -> Seq<char> {
    let out = if is_blank(stdout) {
        seq![]
    } else {
        trim_end(stdout)
    };
    if is_blank(stderr) {
        out
    } else if out.len() > 0 {
        out + "\n"@ + trim_end(stderr)
    } else {
        trim_end(stderr)
    }
}

/// What a command that came to its end reports. `elapsed` is the time it took in
/// seconds, as text.
pub open spec fn command_report(
    stdout: Seq<char>,
    stderr: Seq<char>,
    code: Option<i32>,
    elapsed: Seq<char>,
) -> Seq<char> {
    truncated(
        combined_output(stdout, stderr) + ("\nexit code: "@ + signed_decimal(
            match code {
                Some(code) => code as int,
                None => -1,
            },
        ) + " ("@ + elapsed + "s)"@),
    )
}

/// What a command that was stopped after `timeout` seconds reports.
pub open spec fn timeout_report(
    stdout: Seq<char>,
    stderr: Seq<char>,
    timeout: u64,
) -> Seq<char> {
    let partial = combined_output(stdout, stderr);
    "command timed out after "@ + decimal(timeout as nat) + "s and was killed; "@ + if is_blank(
        partial,
    ) {
        "no output was produced"@
    } else {
        "output so far:\n"@ + truncated(trim(partial))
    }
}

/// Text that is more than white space keeps something when its end is trimmed.
proof fn lemma_something_is_left(s: Seq<char>)
    requires
        !is_blank(s),
    ensures
        trim_end(s).len() > 0,
{
    crate::text::law_trimmed_text_is_a_middle(s);
    let back = choose|back: Seq<char>| #[trigger] (trim_end(s) + back) == s && is_blank(back);
    if trim_end(s).len() == 0 {
        assert(trim_end(s) + back =~= back);
    }
}

/// What a command wrote to both of its streams: each without the white space at its end,
/// unless it is blank, and a line feed between them where neither is.
pub open spec fn both_streams(stdout: Seq<char>, stderr: Seq<char>) -> Seq<char> {
    (if is_blank(stdout) {
        seq![]
    } else {
        trim_end(stdout)
    }) + (if !is_blank(stdout) && !is_blank(stderr) {
        seq!['\n']
    } else {
        seq![]
    }) + (if is_blank(stderr) {
        seq![]
    } else {
        trim_end(stderr)
    })
}

proof fn lemma_combined_output(stdout: Seq<char>, stderr: Seq<char>)
    ensures
        combined_output(stdout, stderr) == both_streams(stdout, stderr),
{
    reveal_strlit("\n");
    assert("\n"@ =~= seq!['\n']);
    if !is_blank(stdout) {
        lemma_something_is_left(stdout);
    }
    assert(combined_output(stdout, stderr) =~= both_streams(stdout, stderr));
}

/// Whatever a command ended with, its report holds what it wrote to both streams, and
/// behind that its code and the time it took. A command that a signal ended has the
/// code -1.
pub proof fn law_report_holds_both_streams(
    stdout: Seq<char>,
    stderr: Seq<char>,
    code: Option<i32>,
    elapsed: Seq<char>,
)
    ensures
        ({
            let number = if code is Some {
                code->0 as int
            } else {
                -1
            };
            let whole = both_streams(stdout, stderr) + "\nexit code: "@ + signed_decimal(number)
                + " ("@ + elapsed + "s)"@;
            &&& utf8_len(whole) <= 30_000 ==> command_report(stdout, stderr, code, elapsed) == whole
            &&& command_report(stdout, stderr, code, elapsed) == truncated(whole)
        }),
{
    let number = if code is Some {
        code->0 as int
    } else {
        -1
    };
    lemma_combined_output(stdout, stderr);
    let streams = both_streams(stdout, stderr);
    let whole = streams + "\nexit code: "@ + signed_decimal(number) + " ("@ + elapsed + "s)"@;
    assert(whole =~= streams + ("\nexit code: "@ + signed_decimal(number) + " ("@ + elapsed
        + "s)"@));
}

/// A command that was stopped is reported with its time and with what it had written to
/// both streams until then, or with the remark that there was nothing.
pub proof fn law_stopped_report_holds_both_streams(
    stdout: Seq<char>,
    stderr: Seq<char>,
    timeout: u64,
)
    ensures
        ({
            let front = "command timed out after "@ + decimal(timeout as nat)
                + "s and was killed; "@;
            let written = trim(both_streams(stdout, stderr));
            &&& is_blank(stdout) && is_blank(stderr) ==> timeout_report(stdout, stderr, timeout)
                == front + "no output was produced"@
            &&& !(is_blank(stdout) && is_blank(stderr)) && utf8_len(written) <= 30_000
                ==> timeout_report(stdout, stderr, timeout) == front + "output so far:\n"@ + written
            &&& !(is_blank(stdout) && is_blank(stderr)) ==> timeout_report(stdout, stderr, timeout)
                == front + "output so far:\n"@ + truncated(written)
        }),
{
    lemma_combined_output(stdout, stderr);
    let streams = both_streams(stdout, stderr);
    let front = "command timed out after "@ + decimal(timeout as nat) + "s and was killed; "@;
    if !(is_blank(stdout) && is_blank(stderr)) {
        if !is_blank(stdout) {
            lemma_something_is_left(stdout);
            crate::text::law_trimmed_text_is_a_middle(stdout);
            let last = trim_end(stdout).len() - 1;
            assert(streams[last] == trim_end(stdout).last());
        } else {
            lemma_something_is_left(stderr);
            crate::text::law_trimmed_text_is_a_middle(stderr);
            assert(streams =~= trim_end(stderr));
        }
        assert(!is_blank(streams));
        let written = trim(streams);
        assert(front + "output so far:\n"@ + truncated(written) =~= front + ("output so far:\n"@
            + truncated(written)));
    }
}

fn combine_output(stdout: &str, stderr: &str) -> (text: String)
    ensures
        text@ == combined_output(stdout@, stderr@),
{
    let mut text = String::new();
    if !blank(stdout) {
        text = trimmed_end(stdout);
    }
    if !blank(stderr) {
        if text.as_str().is_empty() {
            return trimmed_end(stderr);
        }
        text.push_str("\n");
        text.push_str(trimmed_end(stderr).as_str());
    }
    text
}

/// Reports a command that came to its end.
pub fn report_command(
    stdout: &str,
    stderr: &str,
    code: Option<i32>,
    elapsed: &str,
) -> (report: String)
    ensures
        report@ == command_report(stdout@, stderr@, code, elapsed@),
{
    let mut text = combine_output(stdout, stderr);
    let number: i64 = match code {
        Some(code) => code as i64,
        None => -1,
    };
    let mut note: String = "\nexit code: ".to_owned();
    note.push_str(signed_text(number).as_str());
    note.push_str(" (");
    note.push_str(elapsed);
    note.push_str("s)");
    text.push_str(note.as_str());
    truncate_output(text.as_str())
}

/// Reports a command that was stopped after `timeout` seconds.
pub fn report_timeout(stdout: &str, stderr: &str, timeout: u64) -> (report: String)
    ensures
        report@ == timeout_report(stdout@, stderr@, timeout),
{
    let partial = combine_output(stdout, stderr);
    let mut report: String = "command timed out after ".to_owned();
    report.push_str(decimal_text(timeout as u128).as_str());
    report.push_str("s and was killed; ");
    if blank(partial.as_str()) {
        report.push_str("no output was produced");
    } else {
        let mut note: String = "output so far:\n".to_owned();
        note.push_str(truncate_output(trimmed(partial.as_str()).as_str()).as_str());
        report.push_str(note.as_str());
    }
    report
}

// ---------------------------------------------------------------------------
// Files
// ---------------------------------------------------------------------------

/// A file that a search found, and when it was last modified.
#[derive(Debug)]
pub struct GlobMatch {
    pub modified: i128,
    pub path: String,
}

/// What a [`GlobMatch`] stands for.
pub struct GlobMatchView {
    pub modified: int,
    pub path: Seq<char>,
}

impl View for GlobMatch {
    type V = GlobMatchView;

    open spec fn view(&self) -> GlobMatchView {
        GlobMatchView { modified: self.modified as int, path: self.path@ }
    }
}

impl Ranked for GlobMatch {
    /// Newer files come first.
    open spec fn ranks(a: GlobMatchView, b: GlobMatchView) -> bool {
        a.modified >= b.modified
    }

    proof fn ranks_total(a: GlobMatchView, b: GlobMatchView) {
    }

    proof fn ranks_transitive(a: GlobMatchView, b: GlobMatchView, c: GlobMatchView) {
    }

    fn in_order(a: &Self, b: &Self) -> (yes: bool) {
        a.modified >= b.modified
    }
}

/// The paths of a row of files.
pub open spec fn match_paths(list: Seq<GlobMatchView>) -> Seq<Seq<char>> {
    Seq::new(list.len(), |i: int| list[i].path)
}

/// What a search for files reports: the newest first.
pub open spec fn glob_report(matches: Seq<GlobMatchView>) -> Seq<char> {
    let paths = match_paths(ordered::<GlobMatch>(matches));
    if matches.len() == 0 {
        "no matches"@
    } else if matches.len() > MAX_GLOB_MATCHES {
        truncated(
            joined(paths.take(MAX_GLOB_MATCHES as int), "\n"@)
                + "\n[... more than 1000 matches, showing newest 1000 ...]"@,
        )
    } else {
        truncated(joined(paths, "\n"@))
    }
}

/// Of the files that a search found, none is lost, and a newer one stands in front of an
/// older one.
pub proof fn law_newest_files_come_first(matches: Seq<GlobMatchView>)
    ensures
        ordered::<GlobMatch>(matches).to_multiset() == matches.to_multiset(),
        forall|i: int, j: int|
            0 <= i < j < matches.len() ==> (#[trigger] ordered::<GlobMatch>(matches)[i]).modified
                >= (#[trigger] ordered::<GlobMatch>(matches)[j]).modified,
{
    crate::sorting::law_ordered::<GlobMatch>(matches);
    assert forall|i: int, j: int| 0 <= i < j < matches.len() implies (
    #[trigger] ordered::<GlobMatch>(matches)[i]).modified >= (#[trigger] ordered::<GlobMatch>(
        matches,
    )[j]).modified by {
        let sorted = ordered::<GlobMatch>(matches);
        assert(GlobMatch::ranks(sorted[i], sorted[j]));
    }
}

/// The files that a search found are reported one in a line: all of them, each once, the
/// newer in front of the older, and of more than 1000 the first 1000 with a remark. Files
/// that were found newest first are reported in the order in which they were found.
pub proof fn law_found_files_are_reported(matches: Seq<GlobMatchView>) -> (sorted: Seq<
    GlobMatchView,
>)
    ensures
        sorted == ordered::<GlobMatch>(matches),
        sorted.to_multiset() == matches.to_multiset(),
        sorted.len() == matches.len(),
        forall|i: int, j: int|
            0 <= i < j < sorted.len() ==> (#[trigger] sorted[i]).modified >= (
            #[trigger] sorted[j]).modified,
        (forall|i: int, j: int|
            0 <= i < j < matches.len() ==> (#[trigger] matches[i]).modified >= (
            #[trigger] matches[j]).modified) ==> sorted == matches,
        matches.len() == 0 ==> glob_report(matches) == "no matches"@,
        0 < matches.len() <= 1000 ==> glob_report(matches) == truncated(
            joined(sorted.map_values(|file: GlobMatchView| file.path), "\n"@),
        ),
        matches.len() > 1000 ==> glob_report(matches) == truncated(
            joined(sorted.map_values(|file: GlobMatchView| file.path).take(1000), "\n"@)
                + "\n[... more than 1000 matches, showing newest 1000 ...]"@,
        ),
{
    let sorted = ordered::<GlobMatch>(matches);
    law_newest_files_come_first(matches);
    crate::sorting::law_ordered::<GlobMatch>(matches);
    assert(sorted.map_values(|file: GlobMatchView| file.path) =~= match_paths(sorted));
    if forall|i: int, j: int|
        0 <= i < j < matches.len() ==> (#[trigger] matches[i]).modified >= (
        #[trigger] matches[j]).modified {
        crate::sorting::law_ordered_list_stays::<GlobMatch>(matches);
    }
    sorted
}

/// Files of one age are reported in the order in which they were found.
pub proof fn law_files_of_one_age_keep_their_order(matches: Seq<GlobMatchView>, modified: int)
    ensures
        ordered::<GlobMatch>(matches).filter(|file: GlobMatchView| file.modified == modified)
            == matches.filter(|file: GlobMatchView| file.modified == modified),
{
    let path = Seq::<char>::empty();
    let file = GlobMatchView { modified, path };
    crate::sorting::law_sorting_is_stable::<GlobMatch>(matches, file);
    assert(crate::sorting::level_with::<GlobMatch>(file) =~= (|file: GlobMatchView|
        file.modified == modified));
}

/// Reports the files that a search found, the newest first.
pub fn report_glob(matches: Vec<GlobMatch>) -> (report: String)
    ensures
        report@ == glob_report(item_views(matches@)),
{
    let total: usize = matches.len();
    if total == 0 {
        return "no matches".to_owned();
    }
    let ghost seen = item_views(matches@);
    let sorted = sort(matches);
    proof {
        crate::sorting::law_ordered::<GlobMatch>(seen);
    }
    let ghost paths = match_paths(ordered::<GlobMatch>(seen));
    let shown: usize = if total > MAX_GLOB_MATCHES { MAX_GLOB_MATCHES } else { total };
    let mut list: Vec<String> = Vec::new();
    let mut i: usize = 0;
    while i < shown
        invariant
            i <= shown <= total == sorted@.len(),
            item_views(sorted@) == ordered::<GlobMatch>(seen),
            paths == match_paths(ordered::<GlobMatch>(seen)),
            views(list@) == paths.take(i as int),
        decreases shown - i,
    {
        let ghost before = views(list@);
        list.push(sorted[i].path.clone());
        proof {
            assert(item_views(sorted@)[i as int] == sorted@[i as int]@);
            assert(views(list@) =~= before.push(paths[i as int]));
            assert(paths.take(i + 1) =~= paths.take(i as int).push(paths[i as int]));
        }
        i = i + 1;
    }
    let mut text = join(&list, "\n");
    if total > MAX_GLOB_MATCHES {
        text.push_str("\n[... more than 1000 matches, showing newest 1000 ...]");
    } else {
        assert(paths.take(total as int) =~= paths);
    }
    truncate_output(text.as_str())
}

/// An entry of a directory.
#[derive(Debug)]
pub struct DirectoryEntry {
    pub name: String,
    pub is_directory: bool,
}

/// What a [`DirectoryEntry`] stands for.
pub struct DirectoryEntryView {
    pub name: Seq<char>,
    pub is_directory: bool,
}

impl View for DirectoryEntry {
    type V = DirectoryEntryView;

    open spec fn view(&self) -> DirectoryEntryView {
        DirectoryEntryView { name: self.name@, is_directory: self.is_directory }
    }
}

/// An entry as a listing shows it.
pub open spec fn entry_label(entry: DirectoryEntryView) -> Seq<char> {
    if entry.is_directory {
        entry.name + "/"@
    } else {
        entry.name
    }
}

/// The entries of a directory as a listing shows them.
pub open spec fn entry_labels(entries: Seq<DirectoryEntryView>) -> Seq<Seq<char>> {
    Seq::new(entries.len(), |i: int| entry_label(entries[i]))
}

/// What listing a directory reports.
pub open spec fn directory_report(entries: Seq<DirectoryEntryView>) -> Seq<char> {
    if entries.len() == 0 {
        "empty directory"@
    } else {
        truncated(joined(ordered::<String>(entry_labels(entries)), "\n"@))
    }
}

/// A listing shows every entry of a directory once, one in a line and in the order of
/// their code points: a directory with a slash behind its name, anything else by its
/// name alone.
pub proof fn law_every_entry_is_listed(entries: Seq<DirectoryEntryView>) -> (listed: Seq<Seq<char>>)
    ensures
        listed.to_multiset() == Seq::new(
            entries.len(),
            |i: int|
                if entries[i].is_directory {
                    entries[i].name.push('/')
                } else {
                    entries[i].name
                },
        ).to_multiset(),
        listed.len() == entries.len(),
        forall|i: int, j: int|
            0 <= i < j < listed.len() ==> crate::sorting::text_at_most(
                #[trigger] listed[i],
                #[trigger] listed[j],
            ),
        entries.len() > 0 ==> directory_report(entries) == truncated(joined(listed, "\n"@)),
        entries.len() == 0 ==> directory_report(entries) == "empty directory"@,
{
    reveal_strlit("/");
    let labels = Seq::new(
        entries.len(),
        |i: int|
            if entries[i].is_directory {
                entries[i].name.push('/')
            } else {
                entries[i].name
            },
    );
    assert(labels =~= entry_labels(entries)) by {
        assert forall|i: int| 0 <= i < entries.len() implies labels[i] == entry_label(
            entries[i],
        ) by {
            assert(entries[i].name + "/"@ =~= entries[i].name.push('/'));
        }
    }
    let listed = ordered::<String>(labels);
    crate::sorting::law_ordered::<String>(labels);
    assert forall|i: int, j: int| 0 <= i < j < listed.len() implies crate::sorting::text_at_most(
        #[trigger] listed[i],
        #[trigger] listed[j],
    ) by {
        assert(String::ranks(listed[i], listed[j]));
    }
    listed
}

/// Reports the entries of a directory in order, directories with a slash behind them.
pub fn report_directory(entries: &Vec<DirectoryEntry>) -> (report: String)
    ensures
        report@ == directory_report(item_views(entries@)),
{
    if entries.len() == 0 {
        return "empty directory".to_owned();
    }
    let ghost labels = entry_labels(item_views(entries@));
    let mut list: Vec<String> = Vec::new();
    let mut i: usize = 0;
    while i < entries.len()
        invariant
            i <= entries@.len(),
            labels == entry_labels(item_views(entries@)),
            views(list@) == labels.take(i as int),
        decreases entries@.len() - i,
    {
        let ghost before = views(list@);
        let mut label: String = entries[i].name.clone();
        if entries[i].is_directory {
            label.push_str("/");
        }
        let ghost shown = label@;
        list.push(label);
        proof {
            assert(item_views(entries@)[i as int] == entries@[i as int]@);
            assert(shown == labels[i as int]);
            assert(views(list@) =~= before.push(shown));
            assert(labels.take(i + 1) =~= labels.take(i as int).push(labels[i as int]));
        }
        i = i + 1;
    }
    assert(labels.take(entries@.len() as int) =~= labels);
    assert(item_views(list@) =~= views(list@));
    let sorted = sort(list);
    assert(item_views(sorted@) =~= views(sorted@));
    truncate_output(join(&sorted, "\n").as_str())
}

/// What a search in files reports.
pub open spec fn grep_report(stdout: Seq<char>) -> Seq<char> {
    if is_blank(stdout) {
        "no matches"@
    } else {
        truncated(trim(stdout))
    }
}

/// A search in files reports what the program wrote, without the white space around it,
/// or that nothing matched where that is all there is.
pub proof fn law_found_lines_are_reported(front: Seq<char>, found: Seq<char>, back: Seq<char>)
    requires
        is_blank(front),
        is_blank(back),
        found.len() > 0 ==> !crate::text::is_white(found[0]) && !crate::text::is_white(
            found.last(),
        ),
    ensures
        found.len() > 0 && utf8_len(found) <= 30_000 ==> grep_report(front + found + back) == found,
        found.len() > 0 ==> grep_report(front + found + back) == truncated(found),
        found.len() == 0 ==> grep_report(front + found + back) == "no matches"@,
{
    crate::text::law_trimming_takes_blank_ends(front, found, back);
    crate::text::lemma_trim_bounds(front + found + back);
}

/// Reports what a search in files found.
pub fn report_grep(stdout: &str) -> (report: String)
    ensures
        report@ == grep_report(stdout@),
{
    if blank(stdout) {
        "no matches".to_owned()
    } else {
        truncate_output(trimmed(stdout).as_str())
    }
}

} // verus!
