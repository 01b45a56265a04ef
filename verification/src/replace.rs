//! Counting and replacing the occurrences of a pattern.

use vstd::prelude::*;

use crate::lines::{joined, law_joined};
use crate::text::{
    chars_of, contains, find_chars, find_from, lemma_find_from, lemma_find_unique, matches_at,
    string_of,
};

verus! {

/// How far a search moves on behind a match: past the match, and by one character
/// where the match is empty.
pub open spec fn stride(pattern: Seq<char>) -> int {
    if pattern.len() == 0 {
        1
    } else {
        pattern.len() as int
    }
}

/// The number of matches that do not overlap, counted from `from` on.
pub open spec fn occurrences_from(s: Seq<char>, pattern: Seq<char>, from: int) -> nat
    decreases s.len() + 1 - from,
    when 0 <= from
{
    proof {
        lemma_find_from(s, pattern, from);
    }
    match find_from(s, pattern, from) {
        Some(at) => 1 + occurrences_from(s, pattern, at + stride(pattern)),
        None => 0,
    }
}

/// The number of matches of `pattern` in `s` that do not overlap.
pub open spec fn occurrences(s: Seq<char>, pattern: Seq<char>) -> nat {
    occurrences_from(s, pattern, 0)
}

/// `s` from position `from` on, with its first `limit` matches of `pattern` replaced.
/// An empty pattern matches in front of every character and at the end.
pub open spec fn replaced_from(
    s: Seq<char>,
    pattern: Seq<char>,
    with: Seq<char>,
    from: int,
    limit: nat,
) -> Seq<char>
    decreases limit,
{
    if limit == 0 {
        s.skip(from)
    } else {
        match find_from(s, pattern, from) {
            None => s.skip(from),
            Some(at) => s.subrange(from, at) + with + if pattern.len() > 0 {
                replaced_from(s, pattern, with, at + pattern.len(), (limit - 1) as nat)
            } else if at < s.len() {
                seq![s[at]] + replaced_from(s, pattern, with, at + 1, (limit - 1) as nat)
            } else {
                seq![]
            },
        }
    }
}

/// `s` with its first `limit` matches of `pattern` replaced.
pub open spec fn replaced_first(
    s: Seq<char>,
    pattern: Seq<char>,
    with: Seq<char>,
    limit: nat,
) -> Seq<char> {
    replaced_from(s, pattern, with, 0, limit)
}

/// `s` with every match of `pattern` replaced; there are at most `s.len() + 1`.
pub open spec fn replaced(s: Seq<char>, pattern: Seq<char>, with: Seq<char>) -> Seq<char> {
    replaced_from(s, pattern, with, 0, s.len() + 1)
}

/// Replacing the first match leaves everything around it in place.
pub proof fn lemma_replaced_once(s: Seq<char>, pattern: Seq<char>, with: Seq<char>)
    ensures
        match find_from(s, pattern, 0) {
            Some(at) => {
                &&& s == s.take(at) + pattern + s.skip(at + pattern.len())
                &&& replaced_first(s, pattern, with, 1) == s.take(at) + with + s.skip(
                    at + pattern.len(),
                )
            },
            None => replaced_first(s, pattern, with, 1) == s,
        },
{
    lemma_find_from(s, pattern, 0);
    reveal_with_fuel(replaced_from, 2);
    match find_from(s, pattern, 0) {
        Some(at) => {
            assert(s.subrange(at, at + pattern.len()) == pattern);
            assert(s == s.take(at) + pattern + s.skip(at + pattern.len()));
            assert(s.subrange(0, at) == s.take(at));
            if pattern.len() == 0 {
                if at < s.len() {
                    assert(seq![s[at]] + s.skip(at + 1) == s.skip(at));
                } else {
                    assert(s.skip(at) == Seq::<char>::empty());
                }
            }
        },
        None => {
            assert(s.skip(0) == s);
        },
    }
}

/// Text without a match stays as it is.
pub proof fn lemma_replaced_absent(s: Seq<char>, pattern: Seq<char>, with: Seq<char>)
    requires
        occurrences(s, pattern) == 0,
    ensures
        replaced(s, pattern, with) == s,
{
    assert(s.skip(0) == s);
}

/// A single match that is replaced everywhere is the first match replaced.
pub proof fn lemma_replaced_single(s: Seq<char>, pattern: Seq<char>, with: Seq<char>)
    requires
        occurrences(s, pattern) == 1,
    ensures
        replaced(s, pattern, with) == replaced_first(s, pattern, with, 1),
{
    if pattern.len() == 0 && s.len() > 0 {
        // An empty pattern matches in front of each character and at the end.
        reveal_with_fuel(occurrences_from, 3);
        assert(s.subrange(0, 0) =~= pattern);
        assert(s.subrange(1, 1) =~= pattern);
        assert(matches_at(s, pattern, 0));
        assert(matches_at(s, pattern, 1));
    }
    lemma_find_from(s, pattern, 0);
    reveal_with_fuel(replaced_from, 3);
    reveal_with_fuel(occurrences_from, 3);
    let at = find_from(s, pattern, 0)->0;
    if pattern.len() > 0 {
        assert(find_from(s, pattern, at + pattern.len()) is None);
    }
}

/// Whether `parts` are what stands between the matches of `pattern` that a search from
/// the left finds in the text made of them: in each part with the pattern behind it, the
/// pattern is found at the end only, and the last part holds none.
pub open spec fn between_matches(parts: Seq<Seq<char>>, pattern: Seq<char>) -> bool {
    &&& pattern.len() > 0
    &&& parts.len() > 0
    &&& forall|k: int, i: int|
        0 <= k < parts.len() - 1 && 0 <= i < parts[k].len() ==> !#[trigger] matches_at(
            parts[k] + pattern,
            pattern,
            i,
        )
    &&& !contains(parts.last(), pattern)
}

/// The first part and the pattern stand in front of what the other parts make.
proof fn lemma_joined_first(parts: Seq<Seq<char>>, separator: Seq<char>)
    requires
        parts.len() > 1,
    ensures
        joined(parts, separator) == parts[0] + separator + joined(parts.drop_first(), separator),
{
    assert(parts == seq![parts[0]] + parts.drop_first());
    law_joined(seq![parts[0]], parts.drop_first(), separator);
}

proof fn lemma_between_matches_rest(parts: Seq<Seq<char>>, pattern: Seq<char>)
    requires
        between_matches(parts, pattern),
        parts.len() > 1,
    ensures
        between_matches(parts.drop_first(), pattern),
{
    let rest = parts.drop_first();
    assert(rest.last() == parts.last());
    assert forall|k: int, i: int| 0 <= k < rest.len() - 1 && 0 <= i < rest[k].len() implies
        !#[trigger] matches_at(rest[k] + pattern, pattern, i) by {
        assert(rest[k] == parts[k + 1]);
        assert(!matches_at(parts[k + 1] + pattern, pattern, i));
    }
}

/// A search from where the parts begin finds the pattern right behind the first part.
proof fn lemma_search_between(
    s: Seq<char>,
    parts: Seq<Seq<char>>,
    pattern: Seq<char>,
    from: int,
)
    requires
        between_matches(parts, pattern),
        0 <= from <= s.len(),
        s.skip(from) == joined(parts, pattern),
    ensures
        parts.len() == 1 ==> find_from(s, pattern, from) is None,
        parts.len() > 1 ==> find_from(s, pattern, from) == Some(from + parts[0].len()),
{
    let here = s.skip(from);
    let first = parts[0];
    lemma_find_from(s, pattern, from);
    if parts.len() == 1 {
        if find_from(s, pattern, from) is Some {
            let at = find_from(s, pattern, from)->0;
            assert(s.subrange(at, at + pattern.len()) == here.subrange(
                at - from,
                at - from + pattern.len(),
            ));
            assert(matches_at(first, pattern, at - from));
        }
    } else {
        lemma_joined_first(parts, pattern);
        let n = first.len() as int;
        let m = pattern.len() as int;
        assert(here.len() == s.len() - from);
        assert(here == first + pattern + joined(parts.drop_first(), pattern));
        assert(here.len() >= n + m);
        assert(here.subrange(n, n + m) == pattern);
        assert(s.subrange(from + n, from + n + m) == here.subrange(n, n + m));
        assert forall|i: int| from <= i < from + n implies !#[trigger] matches_at(s, pattern, i) by {
            let head = first + pattern;
            assert(head.subrange(i - from, i - from + m) == s.subrange(i, i + m)) by {
                assert(here.take(n + m) == head);
            }
            assert(!matches_at(parts[0] + pattern, pattern, i - from));
        }
        lemma_find_unique(s, pattern, from, from + n);
    }
}

proof fn lemma_replaced_between(
    s: Seq<char>,
    parts: Seq<Seq<char>>,
    pattern: Seq<char>,
    with: Seq<char>,
    from: int,
    limit: nat,
)
    requires
        between_matches(parts, pattern),
        0 <= from <= s.len(),
        s.skip(from) == joined(parts, pattern),
        limit + 1 >= parts.len(),
    ensures
        replaced_from(s, pattern, with, from, limit) == joined(parts, with),
        occurrences_from(s, pattern, from) == parts.len() - 1,
    decreases parts.len(),
{
    lemma_search_between(s, parts, pattern, from);
    if parts.len() > 1 {
        let rest = parts.drop_first();
        let next = from + parts[0].len() + pattern.len();
        lemma_joined_first(parts, pattern);
        lemma_joined_first(parts, with);
        lemma_between_matches_rest(parts, pattern);
        let here = s.skip(from);
        assert(s.skip(next) == here.skip(parts[0].len() + pattern.len() as int));
        assert(s.skip(next) == joined(rest, pattern));
        lemma_replaced_between(s, rest, pattern, with, next, (limit - 1) as nat);
        assert(s.subrange(from, from + parts[0].len()) == here.take(parts[0].len() as int));
        assert(here.take(parts[0].len() as int) == parts[0]);
        assert(parts[0] + with + joined(rest, with) == joined(parts, with));
    }
}

proof fn lemma_joined_len(parts: Seq<Seq<char>>, one: Seq<char>, other: Seq<char>)
    requires
        parts.len() > 0,
    ensures
        joined(parts, other).len() == joined(parts, one).len() + (parts.len() - 1) * (other.len()
            - one.len()),
    decreases parts.len(),
{
    if parts.len() > 1 {
        lemma_joined_len(parts.drop_last(), one, other);
        assert((parts.len() - 1) * (other.len() - one.len()) == (parts.len() - 2) * (other.len()
            - one.len()) + (other.len() - one.len())) by (nonlinear_arith);
    } else {
        assert((parts.len() - 1) * (other.len() - one.len()) == 0) by (nonlinear_arith)
            requires
                parts.len() == 1,
        ;
    }
}

/// Replacing every match puts the new text where each match stood, once, and leaves
/// what stands between the matches; what was put in is not searched again.
pub proof fn law_replaced(parts: Seq<Seq<char>>, pattern: Seq<char>, with: Seq<char>)
    requires
        between_matches(parts, pattern),
    ensures
        replaced(joined(parts, pattern), pattern, with) == joined(parts, with),
        occurrences(joined(parts, pattern), pattern) == parts.len() - 1,
        joined(parts, with).len() == joined(parts, pattern).len() + (parts.len() - 1) * (with.len()
            - pattern.len()),
{
    let s = joined(parts, pattern);
    assert(s.skip(0) == s);
    lemma_joined_len(parts, seq![], pattern);
    lemma_joined_len(parts, pattern, with);
    assert((parts.len() - 1) * pattern.len() >= parts.len() - 1) by (nonlinear_arith)
        requires
            parts.len() >= 1,
            pattern.len() >= 1,
    ;
    lemma_replaced_between(s, parts, pattern, with, 0, s.len() + 1);
}

/// Every text falls into the parts between the matches of a pattern.
pub proof fn law_text_splits_at_matches(s: Seq<char>, pattern: Seq<char>) -> (parts: Seq<Seq<char>>)
    requires
        pattern.len() > 0,
    ensures
        between_matches(parts, pattern),
        joined(parts, pattern) == s,
    decreases s.len(),
{
    lemma_find_from(s, pattern, 0);
    match find_from(s, pattern, 0) {
        None => {
            let parts = seq![s];
            assert(!contains(parts.last(), pattern)) by {
                assert forall|i: int| !#[trigger] matches_at(s, pattern, i) by {}
            }
            parts
        },
        Some(at) => {
            let first = s.take(at);
            let behind = s.skip(at + pattern.len());
            let rest = law_text_splits_at_matches(behind, pattern);
            let parts = seq![first] + rest;
            assert(parts.drop_first() == rest);
            lemma_joined_first(parts, pattern);
            assert(s.subrange(at, at + pattern.len()) == pattern);
            assert(first + pattern + behind == s);
            assert(parts.last() == rest.last());
            assert forall|k: int, i: int|
                0 <= k < parts.len() - 1 && 0 <= i < parts[k].len() implies !#[trigger] matches_at(
                parts[k] + pattern,
                pattern,
                i,
            ) by {
                if k == 0 {
                    let m = pattern.len() as int;
                    assert(s.take(at + m) == first + pattern);
                    assert((first + pattern).subrange(i, i + m) == s.subrange(i, i + m));
                    assert(!matches_at(s, pattern, i));
                } else {
                    assert(parts[k] == rest[k - 1]);
                    assert(!matches_at(rest[k - 1] + pattern, pattern, i));
                }
            }
            parts
        },
    }
}

/// An empty pattern stands in front of every character and at the end, and replacing it
/// puts the new text at each of these places.
pub proof fn law_empty_pattern_replaced(s: Seq<char>, with: Seq<char>)
    ensures
        occurrences(s, seq![]) == s.len() + 1,
        replaced(s, seq![], with) == with + joined(
            Seq::new(s.len() + 1, |i: int| if i < s.len() { seq![s[i]] } else { seq![] }),
            with,
        ),
{
    let cut = Seq::new(
        s.len() + 1,
        |i: int|
            if i < s.len() {
                seq![s[i]]
            } else {
                seq![]
            },
    );
    lemma_empty_pattern(s, with, cut, 0, s.len() + 1);
    assert(cut.skip(0) == cut);
}

proof fn lemma_empty_pattern(
    s: Seq<char>,
    with: Seq<char>,
    cut: Seq<Seq<char>>,
    from: int,
    limit: nat,
)
    requires
        0 <= from <= s.len(),
        limit >= s.len() + 1 - from,
        cut == Seq::new(
            s.len() + 1,
            |i: int|
                if i < s.len() {
                    seq![s[i]]
                } else {
                    seq![]
                },
        ),
    ensures
        occurrences_from(s, seq![], from) == s.len() + 1 - from,
        replaced_from(s, seq![], with, from, limit) == with + joined(cut.skip(from), with),
    decreases s.len() - from,
{
    let none = Seq::<char>::empty();
    let rest = cut.skip(from);
    assert(s.subrange(from, from) == none);
    assert(find_from(s, none, from) == Some(from));
    assert(rest[0] == cut[from]);
    if from < s.len() {
        lemma_empty_pattern(s, with, cut, from + 1, (limit - 1) as nat);
        lemma_joined_first(rest, with);
        assert(rest.drop_first() == cut.skip(from + 1));
        assert(replaced_from(s, none, with, from, limit) == none + with + (seq![s[from]]
            + replaced_from(s, none, with, from + 1, (limit - 1) as nat)));
        assert(replaced_from(s, none, with, from, limit) == with + joined(rest, with));
    } else {
        assert(rest.len() == 1);
        assert(find_from(s, none, from + 1) is None);
        assert(occurrences_from(s, none, from + 1) == 0);
        assert(none + with + none == with + none);
    }
}

/// Counts the matches of `pattern` in `s` that do not overlap.
pub fn count(s: &str, pattern: &str) -> (n: u128)
    ensures
        n == occurrences(s@, pattern@),
{
    let chars = chars_of(s);
    let wanted = chars_of(pattern);
    let len: usize = chars.len();
    let mut n: u128 = 0;
    let mut pos: usize = 0;
    loop
        invariant
            chars@ == s@,
            wanted@ == pattern@,
            len == chars@.len(),
            pos <= chars@.len(),
            n <= pos,
            n + occurrences_from(s@, pattern@, pos as int) == occurrences(s@, pattern@),
        decreases chars@.len() - pos,
    {
        proof {
            lemma_find_from(s@, pattern@, pos as int);
        }
        match find_chars(&chars, &wanted, pos) {
            None => {
                return n;
            },
            Some(at) => {
                n = n + 1;
                if wanted.len() == 0 {
                    if at == len {
                        assert(occurrences_from(s@, pattern@, at + 1) == 0);
                        return n;
                    }
                    pos = at + 1;
                } else {
                    pos = at + wanted.len();
                }
            },
        }
    }
}

/// Replaces the first match of `pattern`, or with `all` every match.
pub fn substitute(s: &str, pattern: &str, with: &str, all: bool) -> (t: String)
    ensures
        t@ == (if all {
            replaced(s@, pattern@, with@)
        } else {
            replaced_first(s@, pattern@, with@, 1)
        }),
{
    let chars = chars_of(s);
    let wanted = chars_of(pattern);
    let len: usize = chars.len();
    let mut t = String::new();
    let mut pos: usize = 0;
    let mut done: bool = false;
    let ghost limit: nat = if all { s@.len() + 1 } else { 1 };
    let ghost mut left: nat = limit;
    assert(t@ + replaced_from(s@, pattern@, with@, 0, limit) == replaced_from(
        s@,
        pattern@,
        with@,
        0,
        limit,
    ));
    loop
        invariant
            chars@ == s@,
            wanted@ == pattern@,
            len == chars@.len(),
            pos <= chars@.len(),
            limit == (if all { s@.len() + 1 } else { 1 }),
            all ==> left + pos >= s@.len() + 1,
            !all ==> left == (if done { 0nat } else { 1nat }),
            t@ + replaced_from(s@, pattern@, with@, pos as int, left) == replaced_from(
                s@,
                pattern@,
                with@,
                0,
                limit,
            ),
        decreases chars@.len() + 1 - pos, if done { 0nat } else { 1nat },
    {
        proof {
            lemma_find_from(s@, pattern@, pos as int);
        }
        let ghost before = t@;
        let found: Option<usize> = if done && !all {
            None
        } else {
            find_chars(&chars, &wanted, pos)
        };
        match found {
            None => {
                let rest = string_of(&chars, pos, len);
                t.push_str(rest.as_str());
                assert(s@.skip(pos as int) == s@.subrange(pos as int, len as int));
                return t;
            },
            Some(at) => {
                let gap = string_of(&chars, pos, at);
                t.push_str(gap.as_str());
                t.push_str(with);
                let ghost rest = replaced_from(
                    s@,
                    pattern@,
                    with@,
                    at + stride(pattern@),
                    (left - 1) as nat,
                );
                if wanted.len() == 0 {
                    if at == len {
                        assert(before + (gap@ + with@ + Seq::<char>::empty()) == t@);
                        return t;
                    }
                    t.push(chars[at]);
                    assert(before + (gap@ + with@ + (seq![s@[at as int]] + rest)) == t@ + rest);
                    pos = at + 1;
                } else {
                    assert(before + (gap@ + with@ + rest) == t@ + rest);
                    pos = at + wanted.len();
                }
                done = true;
                proof {
                    left = (left - 1) as nat;
                }
            },
        }
    }
}

} // verus!
