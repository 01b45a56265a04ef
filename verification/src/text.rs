//! Text primitives: the character sequences behind every `str` in the crate.

use vstd::prelude::*;

verus! {

/// `String::push`: appends one character at the end.
pub assume_specification[ String::push ](s: &mut String, c: char)
    ensures
        final(s)@ == old(s)@.push(c),
;

/// `String::push_str`: appends a whole string slice at the end.
pub assume_specification[ String::push_str ](s: &mut String, other: &str)
    ensures
        final(s)@ == old(s)@ + other@,
;

/// Tests whether two texts hold the same characters.
pub fn same_text(a: &str, b: &str) -> (same: bool)
    ensures
        same == (a@ == b@),
{
    let left = chars_of(a);
    let right = chars_of(b);
    let n: usize = left.len();
    if n != right.len() {
        return false;
    }
    let mut i: usize = 0;
    while i < n
        invariant
            i <= n,
            n == left@.len(),
            n == right@.len(),
            left@ == a@,
            right@ == b@,
            forall|j: int| 0 <= j < i ==> #[trigger] a@[j] == b@[j],
        decreases n - i,
    {
        if left[i] != right[i] {
            assert(a@[i as int] != b@[i as int]);
            return false;
        }
        i = i + 1;
    }
    assert(a@ =~= b@);
    true
}

/// The characters behind each string of a sequence.
pub open spec fn views(list: Seq<String>) -> Seq<Seq<char>> {
    Seq::new(list.len(), |i: int| list[i]@)
}

/// The number of bytes that the UTF-8 encoding of `s` takes.
pub open spec fn utf8_len(s: Seq<char>) -> nat {
    vstd::utf8::encode_utf8(s).len()
}

/// The first `n` characters, or all of them when there are fewer.
pub open spec fn prefix(s: Seq<char>, n: nat) -> Seq<char> {
    if n < s.len() {
        s.take(n as int)
    } else {
        s
    }
}

/// Whether `c` has the Unicode property `White_Space`.
pub open spec fn is_white(c: char) -> bool {
    ||| '\u{9}' <= c <= '\u{d}'
    ||| c == ' '
    ||| c == '\u{85}'
    ||| c == '\u{a0}'
    ||| c == '\u{1680}'
    ||| '\u{2000}' <= c <= '\u{200a}'
    ||| c == '\u{2028}'
    ||| c == '\u{2029}'
    ||| c == '\u{202f}'
    ||| c == '\u{205f}'
    ||| c == '\u{3000}'
}

/// Tests for the Unicode property `White_Space`.
pub fn is_whitespace(c: char) -> (white: bool)
    ensures
        white == is_white(c),
{
    ('\u{9}' <= c && c <= '\u{d}') || c == ' ' || c == '\u{85}' || c == '\u{a0}' || c == '\u{1680}'
        || ('\u{2000}' <= c && c <= '\u{200a}') || c == '\u{2028}' || c == '\u{2029}'
        || c == '\u{202f}' || c == '\u{205f}' || c == '\u{3000}'
}

/// The characters of `s`, in order.
pub fn chars_of(s: &str) -> (chars: Vec<char>)
    ensures
        chars@ == s@,
{
    let mut chars: Vec<char> = Vec::new();
    for c in it: s.chars()
        invariant
            chars@ == it.seq().take(it.index() as int),
            it.seq() == s@,
    {
        chars.push(c);
    }
    chars
}

/// The string made of the characters `from..to` of `chars`.
pub fn string_of(chars: &Vec<char>, from: usize, to: usize) -> (s: String)
    requires
        from <= to <= chars@.len(),
    ensures
        s@ == chars@.subrange(from as int, to as int),
{
    let mut s = String::new();
    let mut i: usize = from;
    while i < to
        invariant
            from <= i <= to <= chars@.len(),
            s@ == chars@.subrange(from as int, i as int),
        decreases to - i,
    {
        s.push(chars[i]);
        i = i + 1;
    }
    s
}

/// The encodings of two texts follow one another.
pub proof fn lemma_utf8_len_concat(a: Seq<char>, b: Seq<char>)
    ensures
        utf8_len(a + b) == utf8_len(a) + utf8_len(b),
    decreases a.len(),
{
    if a.len() == 0 {
        assert(a + b =~= b);
    } else {
        assert((a + b).drop_first() =~= a.drop_first() + b);
        lemma_utf8_len_concat(a.drop_first(), b);
    }
}

/// A character takes between one and four bytes, the more the larger its code point is.
pub proof fn law_utf8_len(c: char)
    ensures
        utf8_len(seq![c]) == (if c as u32 <= 0x7f {
            1int
        } else if c as u32 <= 0x7ff {
            2
        } else if c as u32 <= 0xffff {
            3
        } else {
            4
        }),
        utf8_len(seq![]) == 0,
{
    reveal_with_fuel(vstd::utf8::encode_utf8, 2);
    assert(seq![c].drop_first() =~= Seq::<char>::empty());
}

/// The view of a text that may be missing.
pub open spec fn option_view(text: Option<String>) -> Option<Seq<char>> {
    match text {
        Some(text) => Some(text@),
        None => None,
    }
}

/// The views of a list of texts that may be missing.
pub open spec fn option_views(list: Option<Vec<String>>) -> Option<Seq<Seq<char>>> {
    match list {
        Some(list) => Some(views(list@)),
        None => None,
    }
}

/// Lists of strings stand for lists of texts, one for each string and in their order.
pub proof fn law_strings_stand_for_texts(list: Vec<String>, text: String, i: int)
    ensures
        views(list@).len() == list@.len(),
        0 <= i < list@.len() ==> views(list@)[i] == list@[i]@,
        option_view(Some(text)) == Some(text@),
        option_view(None) is None,
        option_views(Some(list)) == Some(views(list@)),
        option_views(None) is None,
{
}

/// Another text with the same characters, where there is one.
pub fn copy_option(text: &Option<String>) -> (other: Option<String>)
    ensures
        option_view(other) == option_view(*text),
{
    match text {
        Some(text) => Some(text.clone()),
        None => None,
    }
}

/// Another list of the same texts.
pub fn copy_texts(list: &Vec<String>) -> (copies: Vec<String>)
    ensures
        views(copies@) == views(list@),
{
    let mut copies: Vec<String> = Vec::new();
    let mut i: usize = 0;
    while i < list.len()
        invariant
            i <= list@.len(),
            views(copies@) == views(list@).take(i as int),
        decreases list@.len() - i,
    {
        let ghost before = views(copies@);
        copies.push(list[i].clone());
        assert(views(copies@) =~= before.push(list@[i as int]@));
        i = i + 1;
        assert(views(copies@) =~= views(list@).take(i as int));
    }
    assert(views(list@).take(list@.len() as int) =~= views(list@));
    copies
}

/// The UTF-8 length of `s` in bytes.
pub fn byte_len(s: &str) -> (n: usize)
    ensures
        n == utf8_len(s@),
{
    s.as_bytes().len()
}

/// The first `n` characters of `s` as a string of their own.
pub fn take_chars(s: &str, n: usize) -> (head: String)
    ensures
        head@ == prefix(s@, n as nat),
{
    let chars = chars_of(s);
    let end: usize = if n < chars.len() { n } else { chars.len() };
    let head = string_of(&chars, 0, end);
    assert(chars@.subrange(0, end as int) == prefix(s@, n as nat));
    head
}

// ---------------------------------------------------------------------------
// Trimming
// ---------------------------------------------------------------------------

/// `s` without the white space it starts with.
pub open spec fn trim_start(s: Seq<char>) -> Seq<char>
    decreases s.len(),
{
    if s.len() > 0 && is_white(s[0]) {
        trim_start(s.drop_first())
    } else {
        s
    }
}

/// `s` without the white space it ends with.
pub open spec fn trim_end(s: Seq<char>) -> Seq<char>
    decreases s.len(),
{
    if s.len() > 0 && is_white(s.last()) {
        trim_end(s.drop_last())
    } else {
        s
    }
}

/// `s` without the white space around it.
pub open spec fn trim(s: Seq<char>) -> Seq<char> {
    trim_end(trim_start(s))
}

/// Whether `s` holds nothing but white space.
pub open spec fn is_blank(s: Seq<char>) -> bool {
    forall|i: int| 0 <= i < s.len() ==> is_white(#[trigger] s[i])
}

/// Trimming adds no character.
pub proof fn lemma_trim_adds_nothing(s: Seq<char>, c: char)
    requires
        trim(s).contains(c),
    ensures
        s.contains(c),
{
    lemma_trim_end_adds_nothing(trim_start(s), c);
    lemma_trim_start_adds_nothing(s, c);
}

proof fn lemma_trim_start_adds_nothing(s: Seq<char>, c: char)
    requires
        trim_start(s).contains(c),
    ensures
        s.contains(c),
    decreases s.len(),
{
    if s.len() > 0 && is_white(s[0]) {
        lemma_trim_start_adds_nothing(s.drop_first(), c);
        let i = choose|i: int| 0 <= i < s.drop_first().len() && s.drop_first()[i] == c;
        assert(s[i + 1] == c);
    }
}

proof fn lemma_trim_end_adds_nothing(s: Seq<char>, c: char)
    requires
        trim_end(s).contains(c),
    ensures
        s.contains(c),
    decreases s.len(),
{
    if s.len() > 0 && is_white(s.last()) {
        lemma_trim_end_adds_nothing(s.drop_last(), c);
        let i = choose|i: int| 0 <= i < s.drop_last().len() && s.drop_last()[i] == c;
        assert(s[i] == c);
    }
}

/// Trimming at the front leaves the tail that starts at the first other character.
proof fn lemma_trim_start_at(s: Seq<char>, k: int)
    requires
        0 <= k <= s.len(),
        forall|i: int| 0 <= i < k ==> is_white(#[trigger] s[i]),
        k < s.len() ==> !is_white(s[k]),
    ensures
        trim_start(s) == s.skip(k),
    decreases k,
{
    if k > 0 {
        let rest = s.drop_first();
        assert forall|i: int| 0 <= i < k - 1 implies is_white(#[trigger] rest[i]) by {
            assert(rest[i] == s[i + 1]);
        }
        lemma_trim_start_at(rest, k - 1);
        assert(rest.skip(k - 1) == s.skip(k));
    } else {
        assert(s.skip(0) == s);
    }
}

/// Trimming at the back leaves the head that ends at the last other character.
proof fn lemma_trim_end_at(s: Seq<char>, k: int)
    requires
        0 <= k <= s.len(),
        forall|i: int| k <= i < s.len() ==> is_white(#[trigger] s[i]),
        k > 0 ==> !is_white(s[k - 1]),
    ensures
        trim_end(s) == s.take(k),
    decreases s.len() - k,
{
    if k < s.len() {
        lemma_trim_end_at(s.drop_last(), k);
        assert(s.drop_last().take(k) == s.take(k));
    } else {
        assert(s.take(k) == s);
    }
}

/// What trimming leaves starts and ends with a character that is not white space,
/// and is empty exactly for blank text.
pub proof fn lemma_trim_bounds(s: Seq<char>)
    ensures
        trim(s).len() == 0 <==> is_blank(s),
        trim(s).len() > 0 ==> !is_white(trim(s)[0]) && !is_white(trim(s).last()),
        trim(s).len() <= s.len(),
{
    lemma_trim_start_bounds(s);
    lemma_trim_end_bounds(trim_start(s));
    if is_blank(s) {
        lemma_trim_start_at(s, s.len() as int);
    } else {
        let i = choose|i: int| 0 <= i < s.len() && !is_white(#[trigger] s[i]);
        lemma_trim_start_keeps(s, i);
    }
}

proof fn lemma_trim_start_keeps(s: Seq<char>, i: int)
    requires
        0 <= i < s.len(),
        !is_white(s[i]),
    ensures
        trim_start(s).len() > 0,
    decreases s.len(),
{
    if is_white(s[0]) {
        assert(s.drop_first()[i - 1] == s[i]);
        lemma_trim_start_keeps(s.drop_first(), i - 1);
    }
}

proof fn lemma_trim_start_bounds(s: Seq<char>)
    ensures
        trim_start(s).len() <= s.len(),
        trim_start(s).len() > 0 ==> !is_white(trim_start(s)[0]),
    decreases s.len(),
{
    if s.len() > 0 && is_white(s[0]) {
        lemma_trim_start_bounds(s.drop_first());
    }
}

proof fn lemma_trim_end_bounds(s: Seq<char>)
    ensures
        trim_end(s).len() <= s.len(),
        trim_end(s).len() > 0 ==> !is_white(trim_end(s).last()) && trim_end(s)[0] == s[0],
        s.len() > 0 && !is_white(s[0]) ==> trim_end(s).len() > 0,
    decreases s.len(),
{
    if s.len() > 0 && is_white(s.last()) {
        lemma_trim_end_bounds(s.drop_last());
    }
}

/// Text that starts and ends with a character other than white space is left as it is.
pub proof fn lemma_trim_fixed(s: Seq<char>)
    requires
        s.len() > 0 ==> !is_white(s[0]) && !is_white(s.last()),
    ensures
        trim(s) == s,
{
}

/// Trimming twice is trimming once.
pub proof fn lemma_trim_idempotent(s: Seq<char>)
    ensures
        trim(trim(s)) == trim(s),
{
    lemma_trim_bounds(s);
    lemma_trim_fixed(trim(s));
}

/// Text falls into white space, what trimming leaves and white space again; what is
/// left neither starts nor ends with white space. So whatever text stands between blank
/// text comes out whole, and blank text leaves nothing.
pub proof fn law_trimming_takes_blank_ends(front: Seq<char>, s: Seq<char>, back: Seq<char>)
    requires
        is_blank(front),
        is_blank(back),
        s.len() > 0 ==> !is_white(s[0]) && !is_white(s.last()),
    ensures
        trim(front + s + back) == s,
        s.len() > 0 ==> trim_end(front + s + back) == front + s,
        s.len() > 0 ==> trim_start(front + s + back) == s + back,
        s.len() == 0 ==> trim_end(front + s + back).len() == 0,
{
    let all = front + s + back;
    if s.len() > 0 {
        let k = front.len() + s.len();
        assert(all[front.len() as int] == s[0]);
        assert(all[k - 1] == s.last());
        assert forall|i: int| 0 <= i < front.len() implies is_white(#[trigger] all[i]) by {
            assert(all[i] == front[i]);
        }
        assert forall|i: int| k <= i < all.len() implies is_white(#[trigger] all[i]) by {
            assert(all[i] == back[i - k]);
        }
        lemma_trim_start_at(all, front.len() as int);
        assert(all.skip(front.len() as int) == s + back);
        lemma_trim_end_at(all, k as int);
        assert(all.take(k as int) == front + s);
        let rest = s + back;
        assert forall|i: int| s.len() <= i < rest.len() implies is_white(#[trigger] rest[i]) by {
            assert(rest[i] == back[i - s.len()]);
        }
        lemma_trim_end_at(rest, s.len() as int);
        assert(rest.take(s.len() as int) == s);
    } else {
        assert forall|i: int| 0 <= i < all.len() implies is_white(#[trigger] all[i]) by {
            if i < front.len() {
                assert(all[i] == front[i]);
            } else {
                assert(all[i] == back[i - front.len()]);
            }
        }
        lemma_trim_start_at(all, all.len() as int);
        assert(all.skip(all.len() as int) == s);
        lemma_trim_end_at(all, 0);
    }
}

/// Every text is blank text, the text that trimming leaves, and blank text.
pub proof fn law_trimmed_text_is_a_middle(s: Seq<char>)
    ensures
        exists|front: Seq<char>, back: Seq<char>|
            #![trigger front + trim(s) + back]
            s == front + trim(s) + back && is_blank(front) && is_blank(back),
        exists|back: Seq<char>| #[trigger] (trim_end(s) + back) == s && is_blank(back),
        trim_end(s).len() > 0 ==> !is_white(trim_end(s).last()),
{
    lemma_trim_start_suffix(s);
    lemma_trim_end_prefix(trim_start(s));
    lemma_trim_end_prefix(s);
    lemma_trim_end_bounds(s);
    let front = choose|front: Seq<char>| #[trigger] (front + trim_start(s)) == s && is_blank(front);
    let back = choose|back: Seq<char>|
        #[trigger] (trim_end(trim_start(s)) + back) == trim_start(s) && is_blank(back);
    assert(front + trim(s) + back == s);
}

proof fn lemma_trim_start_suffix(s: Seq<char>)
    ensures
        exists|front: Seq<char>| #[trigger] (front + trim_start(s)) == s && is_blank(front),
    decreases s.len(),
{
    if s.len() > 0 && is_white(s[0]) {
        let rest = s.drop_first();
        lemma_trim_start_suffix(rest);
        let front = choose|front: Seq<char>|
            #[trigger] (front + trim_start(rest)) == rest && is_blank(front);
        let longer = seq![s[0]] + front;
        assert(longer + trim_start(rest) == seq![s[0]] + (front + trim_start(rest)));
        assert(s == seq![s[0]] + rest);
        assert(longer + trim_start(s) == s);
        assert forall|i: int| 0 <= i < longer.len() implies is_white(#[trigger] longer[i]) by {
            if i > 0 {
                assert(longer[i] == front[i - 1]);
            }
        }
    } else {
        assert(Seq::<char>::empty() + trim_start(s) == s);
    }
}

proof fn lemma_trim_end_prefix(s: Seq<char>)
    ensures
        exists|back: Seq<char>| #[trigger] (trim_end(s) + back) == s && is_blank(back),
    decreases s.len(),
{
    if s.len() > 0 && is_white(s.last()) {
        let rest = s.drop_last();
        lemma_trim_end_prefix(rest);
        let back = choose|back: Seq<char>|
            #[trigger] (trim_end(rest) + back) == rest && is_blank(back);
        let longer = back.push(s.last());
        assert(trim_end(rest) + longer == (trim_end(rest) + back).push(s.last()));
        assert(s == rest.push(s.last()));
        assert(trim_end(s) + longer == s);
        assert forall|i: int| 0 <= i < longer.len() implies is_white(#[trigger] longer[i]) by {
            if i < back.len() {
                assert(longer[i] == back[i]);
            }
        }
    } else {
        assert(trim_end(s) + Seq::<char>::empty() == s);
    }
}

/// The head of a text is what it starts with: as many characters as were asked for, or
/// the whole text where it has no more.
pub proof fn law_prefix(head: Seq<char>, rest: Seq<char>, n: nat)
    ensures
        n == head.len() ==> prefix(head + rest, n) == head,
        n >= head.len() ==> prefix(head, n) == head,
{
    assert((head + rest).take(head.len() as int) == head);
    if n == head.len() && rest.len() == 0 {
        assert(head + rest == head);
    }
}

/// Where the white space at the front of `chars[from..to]` ends.
fn start_of_text(chars: &Vec<char>, from: usize, to: usize) -> (k: usize)
    requires
        from <= to <= chars@.len(),
    ensures
        from <= k <= to,
        trim_start(chars@.subrange(from as int, to as int)) == chars@.subrange(k as int, to as int),
{
    let mut k: usize = from;
    while k < to && is_whitespace(chars[k])
        invariant
            from <= k <= to <= chars@.len(),
            forall|i: int| from <= i < k ==> is_white(#[trigger] chars@[i]),
        decreases to - k,
    {
        k = k + 1;
    }
    proof {
        let s = chars@.subrange(from as int, to as int);
        lemma_trim_start_at(s, k - from);
        assert(s.skip(k - from) == chars@.subrange(k as int, to as int));
    }
    k
}

/// Where the white space at the back of `chars[from..to]` begins.
fn end_of_text(chars: &Vec<char>, from: usize, to: usize) -> (k: usize)
    requires
        from <= to <= chars@.len(),
    ensures
        from <= k <= to,
        trim_end(chars@.subrange(from as int, to as int)) == chars@.subrange(from as int, k as int),
{
    let mut k: usize = to;
    while from < k && is_whitespace(chars[k - 1])
        invariant
            from <= k <= to <= chars@.len(),
            forall|i: int| k <= i < to ==> is_white(#[trigger] chars@[i]),
        decreases k,
    {
        k = k - 1;
    }
    proof {
        let s = chars@.subrange(from as int, to as int);
        lemma_trim_end_at(s, k - from);
        assert(s.take(k - from) == chars@.subrange(from as int, k as int));
    }
    k
}

/// The part `from..to` of `chars` as a string, without the white space around it.
pub fn trimmed_range(chars: &Vec<char>, from: usize, to: usize) -> (s: String)
    requires
        from <= to <= chars@.len(),
    ensures
        s@ == trim(chars@.subrange(from as int, to as int)),
{
    let start: usize = start_of_text(chars, from, to);
    let end: usize = end_of_text(chars, start, to);
    string_of(chars, start, end)
}

/// `s` without the white space around it.
pub fn trimmed(s: &str) -> (t: String)
    ensures
        t@ == trim(s@),
{
    let chars = chars_of(s);
    assert(chars@.subrange(0, chars@.len() as int) == s@);
    trimmed_range(&chars, 0, chars.len())
}

/// `s` without the white space it ends with.
pub fn trimmed_end(s: &str) -> (t: String)
    ensures
        t@ == trim_end(s@),
{
    let chars = chars_of(s);
    assert(chars@.subrange(0, chars@.len() as int) == s@);
    let end: usize = end_of_text(&chars, 0, chars.len());
    string_of(&chars, 0, end)
}

/// Tests whether `s` holds nothing but white space.
pub fn blank(s: &str) -> (b: bool)
    ensures
        b == is_blank(s@),
        b == (trim(s@).len() == 0),
{
    let chars = chars_of(s);
    let mut i: usize = 0;
    proof {
        lemma_trim_bounds(s@);
    }
    while i < chars.len()
        invariant
            chars@ == s@,
            0 <= i <= chars@.len(),
            forall|j: int| 0 <= j < i ==> is_white(#[trigger] s@[j]),
            (trim(s@).len() == 0) == is_blank(s@),
        decreases chars@.len() - i,
    {
        if !is_whitespace(chars[i]) {
            return false;
        }
        i = i + 1;
    }
    true
}

// ---------------------------------------------------------------------------
// Searching
// ---------------------------------------------------------------------------

/// Whether `pattern` stands in `s` at position `at`.
pub open spec fn matches_at(s: Seq<char>, pattern: Seq<char>, at: int) -> bool {
    &&& 0 <= at
    &&& at + pattern.len() <= s.len()
    &&& s.subrange(at, at + pattern.len()) == pattern
}

/// The first position at or behind `from` at which `pattern` stands in `s`.
pub open spec fn find_from(s: Seq<char>, pattern: Seq<char>, from: int) -> Option<int>
    decreases s.len() + 1 - from,
{
    if from < 0 || from + pattern.len() > s.len() {
        None
    } else if matches_at(s, pattern, from) {
        Some(from)
    } else {
        find_from(s, pattern, from + 1)
    }
}

/// Whether `pattern` stands anywhere in `s`.
pub open spec fn contains(s: Seq<char>, pattern: Seq<char>) -> bool {
    exists|i: int| #[trigger] matches_at(s, pattern, i)
}

/// What a search finds is a match, and there is none before it; a search that finds
/// nothing has no match to find.
pub proof fn lemma_find_from(s: Seq<char>, pattern: Seq<char>, from: int)
    requires
        0 <= from,
    ensures
        match find_from(s, pattern, from) {
            Some(at) => {
                &&& from <= at
                &&& matches_at(s, pattern, at)
                &&& forall|i: int| from <= i < at ==> !#[trigger] matches_at(s, pattern, i)
            },
            None => forall|i: int| from <= i ==> !#[trigger] matches_at(s, pattern, i),
        },
    decreases s.len() + 1 - from,
{
    if from + pattern.len() <= s.len() && !matches_at(s, pattern, from) {
        lemma_find_from(s, pattern, from + 1);
    }
}

/// A pattern stands in a text exactly where the text is something, the pattern and
/// something; and a search finds the first such place.
pub proof fn law_search(before: Seq<char>, pattern: Seq<char>, behind: Seq<char>)
    ensures
        matches_at(before + pattern + behind, pattern, before.len() as int),
        contains(before + pattern + behind, pattern),
        find_from(before + pattern + behind, pattern, 0) is Some,
        find_from(before + pattern + behind, pattern, 0)->0 <= before.len(),
{
    let s = before + pattern + behind;
    assert(s.subrange(before.len() as int, (before.len() + pattern.len()) as int) == pattern);
    lemma_find_from(s, pattern, 0);
    assert(matches_at(s, pattern, before.len() as int));
}

/// A text that holds a pattern falls into what stands in front of it, the pattern and
/// what stands behind it.
pub proof fn law_contained_text_splits(s: Seq<char>, pattern: Seq<char>)
    ensures
        contains(s, pattern) <==> exists|before: Seq<char>, behind: Seq<char>|
            #![trigger before + pattern + behind]
            s == before + pattern + behind,
        match find_from(s, pattern, 0) {
            Some(at) => s == s.take(at) + pattern + s.skip(at + pattern.len()),
            None => !contains(s, pattern),
        },
{
    lemma_find_from(s, pattern, 0);
    match find_from(s, pattern, 0) {
        Some(at) => {
            assert(s.subrange(at, at + pattern.len()) == pattern);
            assert(s == s.take(at) + pattern + s.skip(at + pattern.len()));
        },
        None => {
            if exists|before: Seq<char>, behind: Seq<char>|
                #![trigger before + pattern + behind]
                s == before + pattern + behind {
                let (before, behind) = choose|before: Seq<char>, behind: Seq<char>|
                    #![trigger before + pattern + behind]
                    s == before + pattern + behind;
                law_search(before, pattern, behind);
            }
        },
    }
}

/// The only match with none before it is the one that a search finds.
pub proof fn lemma_find_unique(s: Seq<char>, pattern: Seq<char>, from: int, at: int)
    requires
        0 <= from <= at,
        matches_at(s, pattern, at),
        forall|i: int| from <= i < at ==> !#[trigger] matches_at(s, pattern, i),
    ensures
        find_from(s, pattern, from) == Some(at),
{
    lemma_find_from(s, pattern, from);
    let found = find_from(s, pattern, from);
    if found is Some && found->0 > at {
        assert(!matches_at(s, pattern, at));
    }
}

/// Where a pattern whose first character does not come again in it is put behind text
/// without a match, it is found right there.
pub proof fn lemma_find_first(before: Seq<char>, pattern: Seq<char>, behind: Seq<char>)
    requires
        pattern.len() > 0,
        forall|k: int| 0 < k < pattern.len() ==> #[trigger] pattern[k] != pattern[0],
        !contains(before, pattern),
    ensures
        find_from(before + pattern + behind, pattern, 0) == Some(before.len() as int),
{
    let s = before + pattern + behind;
    let at = before.len() as int;
    assert(s.subrange(at, at + pattern.len()) == pattern);
    assert forall|i: int| 0 <= i < at implies !#[trigger] matches_at(s, pattern, i) by {
        if matches_at(s, pattern, i) {
            let piece = s.subrange(i, i + pattern.len());
            if i + pattern.len() <= at {
                assert(before.subrange(i, i + pattern.len()) == piece);
                assert(matches_at(before, pattern, i));
            } else {
                assert(piece[at - i] == s[at]);
                assert(s[at] == pattern[0]);
                assert(pattern[at - i] != pattern[0]);
            }
        }
    }
    lemma_find_unique(s, pattern, 0, at);
}

/// Text in front shifts what a search behind it finds.
pub proof fn lemma_find_shift(front: Seq<char>, s: Seq<char>, pattern: Seq<char>, from: int)
    requires
        0 <= from,
    ensures
        find_from(front + s, pattern, front.len() + from) == (match find_from(s, pattern, from) {
            Some(at) => Some(front.len() + at),
            None => None,
        }),
    decreases s.len() + 1 - from,
{
    if from + pattern.len() <= s.len() {
        assert((front + s).subrange(front.len() + from, front.len() + from + pattern.len())
            == s.subrange(from, from + pattern.len()));
        if !matches_at(s, pattern, from) {
            lemma_find_shift(front, s, pattern, from + 1);
        }
    }
}

/// Compares `chars` at position `at` with `pattern`.
fn stands_at(chars: &Vec<char>, pattern: &Vec<char>, at: usize) -> (b: bool)
    requires
        at + pattern@.len() <= chars@.len(),
    ensures
        b == matches_at(chars@, pattern@, at as int),
{
    let n: usize = chars.len();
    let mut i: usize = 0;
    while i < pattern.len()
        invariant
            n == chars@.len(),
            at + pattern@.len() <= n,
            0 <= i <= pattern@.len(),
            forall|j: int| 0 <= j < i ==> chars@[at + j] == #[trigger] pattern@[j],
        decreases pattern@.len() - i,
    {
        if chars[at + i] != pattern[i] {
            assert(chars@.subrange(at as int, at + pattern@.len())[i as int] != pattern@[i as int]);
            return false;
        }
        i = i + 1;
    }
    assert(chars@.subrange(at as int, at + pattern@.len()) == pattern@);
    true
}

/// Searches `chars` for `pattern`, starting at `from`.
pub fn find_chars(chars: &Vec<char>, pattern: &Vec<char>, from: usize) -> (found: Option<usize>)
    ensures
        match found {
            Some(at) => find_from(chars@, pattern@, from as int) == Some(at as int) && from <= at
                && at + pattern@.len() <= chars@.len(),
            None => find_from(chars@, pattern@, from as int) is None,
        },
{
    let n: usize = chars.len();
    let m: usize = pattern.len();
    if m > n {
        return None;
    }
    let last: usize = n - m;
    let mut at: usize = from;
    while at <= last
        invariant
            n == chars@.len(),
            m == pattern@.len(),
            m <= n,
            last == n - m,
            from <= at,
            from <= last ==> at <= last + 1,
            find_from(chars@, pattern@, from as int) == find_from(chars@, pattern@, at as int),
        decreases last + 1 - at,
    {
        if stands_at(chars, pattern, at) {
            return Some(at);
        }
        if at == last {
            assert(find_from(chars@, pattern@, at + 1) is None);
            return None;
        }
        at = at + 1;
    }
    None
}

/// Tests whether `pattern` stands anywhere in `s`.
pub fn contains_text(s: &str, pattern: &str) -> (b: bool)
    ensures
        b == contains(s@, pattern@),
{
    let chars = chars_of(s);
    let wanted = chars_of(pattern);
    proof {
        lemma_find_from(s@, pattern@, 0);
    }
    match find_chars(&chars, &wanted, 0) {
        Some(_) => true,
        None => false,
    }
}

} // verus!
