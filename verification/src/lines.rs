//! Cutting text into lines and joining lines into text.

use vstd::prelude::*;

use crate::text::{chars_of, is_blank, string_of, views};

verus! {

/// The first position at or behind `from` that holds `c`, or the length of `s`.
pub open spec fn index_of(s: Seq<char>, c: char, from: int) -> int
    decreases s.len() - from,
{
    if from >= s.len() {
        s.len() as int
    } else if s[from] == c {
        from
    } else {
        index_of(s, c, from + 1)
    }
}

/// A line that a line feed ended, without the carriage return in front of it.
pub open spec fn without_return(line: Seq<char>) -> Seq<char> {
    if line.len() > 0 && line.last() == '\r' {
        line.drop_last()
    } else {
        line
    }
}

/// The lines of `s` from position `from` on. A line ends with `\n` or `\r\n`, which are
/// not part of it; the last line may do without.
pub open spec fn lines_from(s: Seq<char>, from: int) -> Seq<Seq<char>>
    decreases s.len() - from,
    when 0 <= from
{
    if from >= s.len() {
        seq![]
    } else {
        let end = index_of(s, '\n', from);
        proof {
            lemma_index_of(s, '\n', from);
        }
        if end < s.len() {
            seq![without_return(s.subrange(from, end))] + lines_from(s, end + 1)
        } else {
            seq![s.subrange(from, end)]
        }
    }
}

/// The lines of `s`.
pub open spec fn lines(s: Seq<char>) -> Seq<Seq<char>> {
    lines_from(s, 0)
}

/// The pieces of `s` between line feeds, from position `from` on.
pub open spec fn pieces_from(s: Seq<char>, from: int) -> Seq<Seq<char>>
    decreases s.len() - from,
    when 0 <= from <= s.len()
{
    let end = index_of(s, '\n', from);
    proof {
        lemma_index_of(s, '\n', from);
    }
    if end < s.len() {
        seq![s.subrange(from, end)] + pieces_from(s, end + 1)
    } else {
        seq![s.subrange(from, end)]
    }
}

/// The members of `list` that are more than white space.
pub open spec fn not_blank(list: Seq<Seq<char>>) -> Seq<Seq<char>> {
    list.filter(|line: Seq<char>| !is_blank(line))
}

/// The members of `list` with `separator` between each two of them.
pub open spec fn joined(list: Seq<Seq<char>>, separator: Seq<char>) -> Seq<char>
    decreases list.len(),
{
    if list.len() == 0 {
        seq![]
    } else if list.len() == 1 {
        list[0]
    } else {
        joined(list.drop_last(), separator) + separator + list.last()
    }
}

/// What `index_of` finds: the character, with none of its kind before it, or the end.
pub proof fn lemma_index_of(s: Seq<char>, c: char, from: int)
    requires
        0 <= from <= s.len(),
    ensures
        from <= index_of(s, c, from) <= s.len(),
        index_of(s, c, from) < s.len() ==> s[index_of(s, c, from)] == c,
        forall|i: int| from <= i < index_of(s, c, from) ==> #[trigger] s[i] != c,
    decreases s.len() - from,
{
    if from < s.len() && s[from] != c {
        lemma_index_of(s, c, from + 1);
    }
}

/// Reading on behind a text is reading what follows it.
proof fn lemma_index_of_shift(front: Seq<char>, s: Seq<char>, c: char, from: int)
    requires
        0 <= from <= s.len(),
    ensures
        index_of(front + s, c, front.len() + from) == front.len() + index_of(s, c, from),
    decreases s.len() - from,
{
    if from < s.len() {
        assert((front + s)[front.len() + from] == s[from]);
        if s[from] != c {
            lemma_index_of_shift(front, s, c, from + 1);
        }
    }
}

proof fn lemma_index_of_is(s: Seq<char>, c: char, from: int, at: int)
    requires
        0 <= from <= at <= s.len(),
        at < s.len() ==> s[at] == c,
        forall|i: int| from <= i < at ==> #[trigger] s[i] != c,
    ensures
        index_of(s, c, from) == at,
    decreases at - from,
{
    if from < at {
        lemma_index_of_is(s, c, from + 1, at);
    }
}

proof fn lemma_lines_shift(front: Seq<char>, s: Seq<char>, from: int)
    requires
        0 <= from,
    ensures
        lines_from(front + s, front.len() + from) == lines_from(s, from),
    decreases s.len() - from,
{
    if from < s.len() {
        lemma_index_of_shift(front, s, '\n', from);
        lemma_index_of(s, '\n', from);
        let end = index_of(s, '\n', from);
        assert((front + s).subrange(front.len() + from, front.len() + end) == s.subrange(from, end));
        if end < s.len() {
            lemma_lines_shift(front, s, end + 1);
        }
    }
}

proof fn lemma_pieces_shift(front: Seq<char>, s: Seq<char>, from: int)
    requires
        0 <= from <= s.len(),
    ensures
        pieces_from(front + s, front.len() + from) == pieces_from(s, from),
    decreases s.len() - from,
{
    lemma_index_of_shift(front, s, '\n', from);
    lemma_index_of(s, '\n', from);
    let end = index_of(s, '\n', from);
    assert((front + s).subrange(front.len() + from, front.len() + end) == s.subrange(from, end));
    if end < s.len() {
        lemma_pieces_shift(front, s, end + 1);
    }
}

/// A line feed ends a line: what stands in front of the first one is the first line,
/// without a carriage return at its end, and the lines behind it follow. Text without
/// a line feed is one line as it stands, and no text is no line.
pub proof fn law_lines(line: Seq<char>, rest: Seq<char>)
    requires
        !line.contains('\n'),
    ensures
        lines(line + seq!['\n'] + rest) == seq![
            if line.len() > 0 && line.last() == '\r' {
                line.drop_last()
            } else {
                line
            },
        ] + lines(rest),
        lines(line) == (if line.len() == 0 {
            seq![]
        } else {
            seq![line]
        }),
{
    let front = line + seq!['\n'];
    let s = front + rest;
    let n = line.len() as int;
    assert forall|i: int| 0 <= i < n implies #[trigger] s[i] != '\n' by {
        assert(s[i] == line[i]);
    }
    assert forall|i: int| 0 <= i < n implies #[trigger] line[i] != '\n' by {}
    assert(s[n] == '\n');
    lemma_index_of_is(s, '\n', 0, n);
    lemma_index_of_is(line, '\n', 0, n);
    assert(s.subrange(0, n) == line);
    assert(line.subrange(0, n) == line);
    lemma_lines_shift(front, rest, 0);
}

/// Cutting at line feeds: each stands between two pieces, so text without one is a
/// single piece.
pub proof fn law_pieces(piece: Seq<char>, rest: Seq<char>)
    requires
        !piece.contains('\n'),
    ensures
        pieces_from(piece + seq!['\n'] + rest, 0) == seq![piece] + pieces_from(rest, 0),
        pieces_from(piece, 0) == seq![piece],
{
    let front = piece + seq!['\n'];
    let s = front + rest;
    let n = piece.len() as int;
    assert forall|i: int| 0 <= i < n implies #[trigger] s[i] != '\n' by {
        assert(s[i] == piece[i]);
    }
    assert forall|i: int| 0 <= i < n implies #[trigger] piece[i] != '\n' by {}
    assert(s[n] == '\n');
    lemma_index_of_is(s, '\n', 0, n);
    lemma_index_of_is(piece, '\n', 0, n);
    assert(s.subrange(0, n) == piece);
    assert(piece.subrange(0, n) == piece);
    lemma_pieces_shift(front, rest, 0);
}

/// Joining puts the separator between each two members and nothing else anywhere:
/// joining two lists is joining each and putting one separator between them.
pub proof fn law_joined(front: Seq<Seq<char>>, back: Seq<Seq<char>>, separator: Seq<char>)
    ensures
        joined(Seq::<Seq<char>>::empty(), separator) == Seq::<char>::empty(),
        front.len() == 1 ==> joined(front, separator) == front[0],
        front.len() > 0 && back.len() > 0 ==> joined(front + back, separator) == joined(
            front,
            separator,
        ) + separator + joined(back, separator),
    decreases back.len(),
{
    if front.len() > 0 && back.len() > 0 {
        let all = front + back;
        assert(all.last() == back.last());
        assert(all.drop_last() == front + back.drop_last());
        if back.len() > 1 {
            law_joined(front, back.drop_last(), separator);
            assert(joined(all, separator) == joined(front, separator) + separator + joined(
                back,
                separator,
            ));
        } else {
            assert(all.drop_last() == front);
        }
    }
}

/// The lines that are kept are those that hold more than white space, in their order.
pub proof fn law_blank_lines_are_dropped(list: Seq<Seq<char>>, line: Seq<char>)
    ensures
        not_blank(Seq::<Seq<char>>::empty()) == Seq::<Seq<char>>::empty(),
        not_blank(list.push(line)) == (if (forall|i: int|
            0 <= i < line.len() ==> crate::text::is_white(#[trigger] line[i])) {
            not_blank(list)
        } else {
            not_blank(list).push(line)
        }),
{
    reveal(Seq::filter);
    assert(list.push(line).drop_last() == list);
    assert(list.push(line).last() == line);
}

/// Searches `chars` for `c`, starting at `from`.
pub fn position_of(chars: &Vec<char>, c: char, from: usize) -> (at: usize)
    requires
        from <= chars@.len(),
    ensures
        at == index_of(chars@, c, from as int),
        from <= at <= chars@.len(),
{
    let mut at: usize = from;
    while at < chars.len() && chars[at] != c
        invariant
            from <= at <= chars@.len(),
            index_of(chars@, c, from as int) == index_of(chars@, c, at as int),
        decreases chars@.len() - at,
    {
        at = at + 1;
    }
    at
}

/// The lines of `s`.
pub fn lines_of(s: &str) -> (list: Vec<String>)
    ensures
        views(list@) == lines(s@),
{
    let chars = chars_of(s);
    let mut list: Vec<String> = Vec::new();
    let mut pos: usize = 0;
    assert(views(list@) + lines_from(s@, 0) == lines(s@));
    while pos < chars.len()
        invariant
            chars@ == s@,
            pos <= chars@.len(),
            views(list@) + lines_from(s@, pos as int) == lines(s@),
        decreases chars@.len() - pos,
    {
        let ghost before = views(list@);
        let end: usize = position_of(&chars, '\n', pos);
        proof {
            lemma_index_of(s@, '\n', pos as int);
        }
        if end < chars.len() {
            let stop: usize = if end > pos && chars[end - 1] == '\r' { end - 1 } else { end };
            let line = string_of(&chars, pos, stop);
            assert(line@ == without_return(s@.subrange(pos as int, end as int)));
            list.push(line);
            assert(views(list@) == before.push(line@));
            assert(before.push(line@) + lines_from(s@, end + 1) == before + lines_from(
                s@,
                pos as int,
            ));
            pos = end + 1;
        } else {
            let line = string_of(&chars, pos, end);
            list.push(line);
            assert(views(list@) == before.push(line@));
            assert(before.push(line@) == before + lines_from(s@, pos as int));
            assert(lines_from(s@, end as int) == Seq::<Seq<char>>::empty());
            pos = end;
        }
    }
    assert(views(list@) == lines(s@));
    list
}

/// The pieces of `s` between line feeds.
pub fn pieces_of(s: &str) -> (list: Vec<String>)
    ensures
        views(list@) == pieces_from(s@, 0),
{
    let chars = chars_of(s);
    let mut list: Vec<String> = Vec::new();
    let mut pos: usize = 0;
    loop
        invariant
            chars@ == s@,
            pos <= chars@.len(),
            views(list@) + pieces_from(s@, pos as int) == pieces_from(s@, 0),
        decreases chars@.len() - pos,
    {
        let ghost before = views(list@);
        let end: usize = position_of(&chars, '\n', pos);
        let piece = string_of(&chars, pos, end);
        list.push(piece);
        assert(views(list@) == before.push(piece@));
        if end < chars.len() {
            assert(before.push(piece@) + pieces_from(s@, end + 1) == before + pieces_from(
                s@,
                pos as int,
            ));
            pos = end + 1;
        } else {
            assert(before.push(piece@) == before + pieces_from(s@, pos as int));
            return list;
        }
    }
}

/// Keeps the members of `list` that are more than white space.
pub fn drop_blank(list: Vec<String>) -> (kept: Vec<String>)
    ensures
        views(kept@) == not_blank(views(list@)),
{
    let mut kept: Vec<String> = Vec::new();
    let mut i: usize = 0;
    let ghost all = views(list@);
    let ghost wanted = |line: Seq<char>| !is_blank(line);
    proof {
        assert(all.take(0) == Seq::<Seq<char>>::empty());
        reveal(Seq::filter);
        assert(views(kept@) == all.take(0).filter(wanted));
    }
    while i < list.len()
        invariant
            i <= list@.len(),
            all == views(list@),
            wanted == (|line: Seq<char>| !is_blank(line)),
            views(kept@) == all.take(i as int).filter(wanted),
        decreases list@.len() - i,
    {
        let ghost before = views(kept@);
        proof {
            reveal(Seq::filter);
            assert(all.take(i + 1).drop_last() == all.take(i as int));
            assert(all.take(i + 1).last() == list@[i as int]@);
        }
        if !crate::text::blank(list[i].as_str()) {
            kept.push(list[i].clone());
            assert(views(kept@) == before.push(list@[i as int]@));
        }
        i = i + 1;
    }
    assert(all.take(list@.len() as int) == all);
    kept
}

/// Joins the members of `list`, with `separator` between each two of them.
pub fn join(list: &Vec<String>, separator: &str) -> (s: String)
    ensures
        s@ == joined(views(list@), separator@),
{
    let mut s = String::new();
    let mut i: usize = 0;
    let ghost all = views(list@);
    assert(all.take(0) == Seq::<Seq<char>>::empty());
    while i < list.len()
        invariant
            i <= list@.len(),
            all == views(list@),
            s@ == joined(all.take(i as int), separator@),
        decreases list@.len() - i,
    {
        let ghost before = s@;
        if i > 0 {
            s.push_str(separator);
        }
        s.push_str(list[i].as_str());
        proof {
            assert(all.take(i + 1).drop_last() == all.take(i as int));
            assert(all.take(i + 1).last() == list@[i as int]@);
            if i == 0 {
                assert(before + list@[0]@ == list@[0]@);
            }
        }
        i = i + 1;
    }
    assert(all.take(list@.len() as int) == all);
    s
}

} // verus!
