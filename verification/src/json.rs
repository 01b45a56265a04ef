//! JSON values, as tool calls carry them in their arguments.

use vstd::prelude::*;

use crate::lines::joined;
use crate::number::{decimal, decimal_text, signed_decimal, signed_text};
use crate::text::{same_text, views};

verus! {

/// A JSON number: an integer in the range of `u64` or below zero in that of `i64`, or
/// any other number by the text it is written as.
#[derive(Debug)]
pub enum JsonNumber {
    Unsigned(u64),
    Negative(i64),
    Float(String),
}

/// A JSON value. The members of an object keep their order; of two members with one
/// name the first counts.
#[derive(Debug)]
pub enum Json {
    Null,
    Bool(bool),
    Number(JsonNumber),
    Text(String),
    Array(Vec<Json>),
    Object(Vec<(String, Json)>),
}

/// What a [`JsonNumber`] stands for.
pub enum JsonNumberView {
    Unsigned(u64),
    Negative(i64),
    Float(Seq<char>),
}

/// What a [`Json`] value stands for.
#[verifier::ext_equal]
pub enum JsonView {
    Null,
    Bool(bool),
    Number(JsonNumberView),
    Text(Seq<char>),
    Array(Seq<JsonView>),
    Object(Seq<(Seq<char>, JsonView)>),
}

impl View for JsonNumber {
    type V = JsonNumberView;

    open spec fn view(&self) -> JsonNumberView {
        match self {
            JsonNumber::Unsigned(n) => JsonNumberView::Unsigned(*n),
            JsonNumber::Negative(n) => JsonNumberView::Negative(*n),
            JsonNumber::Float(text) => JsonNumberView::Float(text@),
        }
    }
}

/// What `value` stands for.
pub open spec fn json_view(value: Json) -> JsonView
    decreases value,
{
    match value {
        Json::Null => JsonView::Null,
        Json::Bool(b) => JsonView::Bool(b),
        Json::Number(n) => JsonView::Number(n@),
        Json::Text(text) => JsonView::Text(text@),
        Json::Array(items) => JsonView::Array(
            Seq::new(
                items@.len(),
                |i: int|
                    if 0 <= i < items@.len() {
                        json_view(items@[i])
                    } else {
                        JsonView::Null
                    },
            ),
        ),
        Json::Object(members) => JsonView::Object(
            Seq::new(
                members@.len(),
                |i: int|
                    if 0 <= i < members@.len() {
                        (members@[i].0@, json_view(members@[i].1))
                    } else {
                        (seq![], JsonView::Null)
                    },
            ),
        ),
    }
}

impl View for Json {
    type V = JsonView;

    open spec fn view(&self) -> JsonView {
        json_view(*self)
    }
}

/// The views of a sequence of JSON values.
pub open spec fn json_views(items: Seq<Json>) -> Seq<JsonView> {
    Seq::new(items.len(), |i: int| items[i]@)
}

/// The views of the members of an object.
pub open spec fn member_views(members: Seq<(String, Json)>) -> Seq<(Seq<char>, JsonView)> {
    Seq::new(members.len(), |i: int| (members[i].0@, members[i].1@))
}

/// An array stands for what its items stand for, an object for what its members do.
pub proof fn lemma_compound_view(value: Json)
    ensures
        value matches Json::Array(items) ==> value@ == JsonView::Array(json_views(items@)),
        value matches Json::Object(members) ==> value@ == JsonView::Object(member_views(members@)),
{
    if let Json::Array(items) = value {
        assert(value@->Array_0 =~= json_views(items@));
    }
    if let Json::Object(members) = value {
        assert(value@->Object_0 =~= member_views(members@));
    }
}

impl JsonNumber {
    /// Another number with the same value.
    pub fn copy(&self) -> (other: JsonNumber)
        ensures
            other@ == self@,
    {
        match self {
            JsonNumber::Unsigned(n) => JsonNumber::Unsigned(*n),
            JsonNumber::Negative(n) => JsonNumber::Negative(*n),
            JsonNumber::Float(text) => JsonNumber::Float(text.clone()),
        }
    }
}

impl Json {
    /// Another value that stands for the same.
    pub fn copy(&self) -> (other: Json)
        ensures
            other@ == self@,
        decreases self,
    {
        proof {
            lemma_compound_view(*self);
        }
        match self {
            Json::Null => Json::Null,
            Json::Bool(b) => Json::Bool(*b),
            Json::Number(n) => Json::Number(n.copy()),
            Json::Text(text) => Json::Text(text.clone()),
            Json::Array(items) => {
                let mut list: Vec<Json> = Vec::new();
                let mut i: usize = 0;
                while i < items.len()
                    invariant
                        i <= items@.len(),
                        json_views(list@) == json_views(items@).take(i as int),
                        *self == Json::Array(*items),
                    decreases items@.len() - i,
                {
                    assert(decreases_to!(*self => self->Array_0@[i as int]));
                    let ghost before = json_views(list@);
                    list.push(items[i].copy());
                    assert(json_views(list@) =~= before.push(items@[i as int]@));
                    i = i + 1;
                    assert(json_views(list@) =~= json_views(items@).take(i as int));
                }
                let other = Json::Array(list);
                proof {
                    lemma_compound_view(other);
                    assert(json_views(items@).take(items@.len() as int) =~= json_views(items@));
                }
                other
            },
            Json::Object(members) => {
                let mut list: Vec<(String, Json)> = Vec::new();
                let mut i: usize = 0;
                while i < members.len()
                    invariant
                        i <= members@.len(),
                        member_views(list@) == member_views(members@).take(i as int),
                        *self == Json::Object(*members),
                    decreases members@.len() - i,
                {
                    assert(decreases_to!(*self => self->Object_0@[i as int].1));
                    let ghost before = member_views(list@);
                    list.push((members[i].0.clone(), members[i].1.copy()));
                    assert(member_views(list@) =~= before.push(
                        (members@[i as int].0@, members@[i as int].1@),
                    ));
                    i = i + 1;
                    assert(member_views(list@) =~= member_views(members@).take(i as int));
                }
                let other = Json::Object(list);
                proof {
                    lemma_compound_view(other);
                    assert(member_views(members@).take(members@.len() as int) =~= member_views(
                        members@,
                    ));
                }
                other
            },
        }
    }
}

impl Clone for Json {
    fn clone(&self) -> (other: Self)
        ensures
            other@ == self@,
    {
        self.copy()
    }
}

// ---------------------------------------------------------------------------
// Members
// ---------------------------------------------------------------------------

/// Where the member `name` stands among `members`, or their number.
pub open spec fn member_index(members: Seq<(Seq<char>, JsonView)>, name: Seq<char>) -> int
    decreases members.len(),
{
    if members.len() == 0 {
        0
    } else if members[0].0 == name {
        0
    } else {
        1 + member_index(members.drop_first(), name)
    }
}

/// The member `name` of an object; `None` where there is none or `value` is no object.
pub open spec fn member(value: JsonView, name: Seq<char>) -> Option<JsonView> {
    match value {
        JsonView::Object(members) => {
            let i = member_index(members, name);
            if i < members.len() {
                Some(members[i].1)
            } else {
                None
            }
        },
        _ => None,
    }
}

/// The member `name` where it is a text.
pub open spec fn text_member(value: JsonView, name: Seq<char>) -> Option<Seq<char>> {
    match member(value, name) {
        Some(JsonView::Text(text)) => Some(text),
        _ => None,
    }
}

/// The member `name` where it is an integer of 64 bits that is not negative.
pub open spec fn u64_member(value: JsonView, name: Seq<char>) -> Option<u64> {
    match member(value, name) {
        Some(JsonView::Number(JsonNumberView::Unsigned(n))) => Some(n),
        Some(JsonView::Number(JsonNumberView::Negative(n))) if n >= 0 => Some(n as u64),
        _ => None,
    }
}

/// The member `name` where it is a truth value.
pub open spec fn bool_member(value: JsonView, name: Seq<char>) -> Option<bool> {
    match member(value, name) {
        Some(JsonView::Bool(b)) => Some(b),
        _ => None,
    }
}

/// `value` with its member `name` replaced, where it has one.
pub open spec fn with_member(value: JsonView, name: Seq<char>, new: JsonView) -> JsonView {
    match value {
        JsonView::Object(members) => {
            let i = member_index(members, name);
            if i < members.len() {
                JsonView::Object(members.update(i, (members[i].0, new)))
            } else {
                value
            }
        },
        _ => value,
    }
}

/// What `member_index` finds: the member, with none of its name before it, or the end.
pub proof fn lemma_member_index(members: Seq<(Seq<char>, JsonView)>, name: Seq<char>)
    ensures
        0 <= member_index(members, name) <= members.len(),
        member_index(members, name) < members.len() ==> members[member_index(members, name)].0
            == name,
        forall|i: int| 0 <= i < member_index(members, name) ==> (#[trigger] members[i]).0 != name,
    decreases members.len(),
{
    if members.len() > 0 && members[0].0 != name {
        let rest = members.drop_first();
        lemma_member_index(rest, name);
        assert forall|i: int| 0 <= i < member_index(members, name) implies (
        #[trigger] members[i]).0 != name by {
            if i > 0 {
                assert(rest[i - 1] == members[i]);
            }
        }
    }
}

proof fn lemma_member_index_is(members: Seq<(Seq<char>, JsonView)>, name: Seq<char>, at: int)
    requires
        0 <= at <= members.len(),
        at < members.len() ==> members[at].0 == name,
        forall|i: int| 0 <= i < at ==> (#[trigger] members[i]).0 != name,
    ensures
        member_index(members, name) == at,
{
    lemma_member_index(members, name);
    let found = member_index(members, name);
    if found < at {
        assert(members[found].0 != name);
    } else if at < found {
        assert(members[at].0 != name);
    }
}

/// A member that was replaced reads as what it was replaced with, and every other
/// member as before.
pub proof fn law_replaced_member_reads_back(
    value: JsonView,
    name: Seq<char>,
    new: JsonView,
    other: Seq<char>,
)
    requires
        member(value, name) is Some,
    ensures
        member(with_member(value, name, new), name) == Some(new),
        other != name ==> member(with_member(value, name, new), other) == member(value, other),
{
    let members = value->Object_0;
    let at = member_index(members, name);
    let changed = members.update(at, (members[at].0, new));
    lemma_member_index(members, name);
    assert forall|i: int| 0 <= i < at implies (#[trigger] changed[i]).0 != name by {
        assert(members[i].0 != name);
    }
    lemma_member_index_is(changed, name, at);
    let there = member_index(members, other);
    lemma_member_index(members, other);
    assert forall|i: int| 0 <= i < there implies (#[trigger] changed[i]).0 != other by {
        assert(members[i].0 != other);
    }
    lemma_member_index_is(changed, other, there);
}

/// Of the members of an object, the first with a name is the one that the name stands
/// for, whatever stands around it; a name that no member has stands for none, and nothing
/// but an object has members.
pub proof fn law_first_member_counts(
    front: Seq<(Seq<char>, JsonView)>,
    name: Seq<char>,
    value: JsonView,
    back: Seq<(Seq<char>, JsonView)>,
    other: JsonView,
)
    requires
        forall|i: int| 0 <= i < front.len() ==> (#[trigger] front[i]).0 != name,
    ensures
        member(JsonView::Object(front.push((name, value)) + back), name) == Some(value),
        member(JsonView::Object(front), name) is None,
        !(other is Object) ==> member(other, name) is None,
{
    let members = front.push((name, value)) + back;
    assert forall|i: int| 0 <= i < front.len() implies (#[trigger] members[i]).0 != name by {
        assert(members[i] == front[i]);
    }
    lemma_member_index_is(members, name, front.len() as int);
    lemma_member_index_is(front, name, front.len() as int);
}

/// A member is read as a text, a number or a truth value exactly where it is one; a number
/// only where it is a whole number that is not negative.
pub proof fn law_members_are_read_as_they_are(value: JsonView, name: Seq<char>)
    ensures
        member(value, name) is None ==> text_member(value, name) is None && u64_member(value, name)
            is None && bool_member(value, name) is None,
        member(value, name) matches Some(found) ==> {
            &&& text_member(value, name) is Some <==> found is Text
            &&& bool_member(value, name) is Some <==> found is Bool
            &&& found matches JsonView::Text(text) ==> text_member(value, name) == Some(text)
            &&& found matches JsonView::Bool(b) ==> bool_member(value, name) == Some(b)
            &&& found matches JsonView::Number(JsonNumberView::Unsigned(n)) ==> u64_member(
                value,
                name,
            ) == Some(n)
            &&& found matches JsonView::Number(JsonNumberView::Negative(n)) ==> n < 0
                ==> u64_member(value, name) is None
            &&& found matches JsonView::Number(JsonNumberView::Negative(n)) ==> n >= 0
                ==> u64_member(value, name) == Some(n as u64)
            &&& found matches JsonView::Number(JsonNumberView::Float(_)) ==> u64_member(value, name)
                is None
            &&& !(found is Number) ==> u64_member(value, name) is None
        },
{
}

/// Replacing a member leaves every other member where and as it is; a value without such
/// a member stays as it is.
pub proof fn law_only_the_member_is_replaced(
    front: Seq<(Seq<char>, JsonView)>,
    name: Seq<char>,
    value: JsonView,
    back: Seq<(Seq<char>, JsonView)>,
    new: JsonView,
    other: JsonView,
)
    requires
        forall|i: int| 0 <= i < front.len() ==> (#[trigger] front[i]).0 != name,
        member(other, name) is None,
    ensures
        with_member(JsonView::Object(front.push((name, value)) + back), name, new)
            == JsonView::Object(front.push((name, new)) + back),
        with_member(other, name, new) == other,
{
    let members = front.push((name, value)) + back;
    assert forall|i: int| 0 <= i < front.len() implies (#[trigger] members[i]).0 != name by {
        assert(members[i] == front[i]);
    }
    lemma_member_index_is(members, name, front.len() as int);
    assert(members.update(front.len() as int, (name, new)) =~= front.push((name, new)) + back);
}

/// Where the member `name` stands among `members`, or their number.
fn find_member(members: &Vec<(String, Json)>, name: &str) -> (at: usize)
    ensures
        at == member_index(member_views(members@), name@),
        at <= members@.len(),
{
    let ghost seen = member_views(members@);
    let mut at: usize = 0;
    while at < members.len()
        invariant
            at <= members@.len(),
            seen == member_views(members@),
            forall|i: int| 0 <= i < at ==> (#[trigger] seen[i]).0 != name@,
        decreases members@.len() - at,
    {
        if same_text(members[at].0.as_str(), name) {
            proof {
                lemma_member_index_is(seen, name@, at as int);
            }
            return at;
        }
        at = at + 1;
    }
    proof {
        lemma_member_index_is(seen, name@, at as int);
    }
    at
}

impl Json {
    /// The member `name` of an object.
    pub fn get(&self, name: &str) -> (found: Option<&Json>)
        ensures
            match found {
                Some(value) => member(self@, name@) == Some(value@),
                None => member(self@, name@) is None,
            },
    {
        proof {
            lemma_compound_view(*self);
        }
        match self {
            Json::Object(members) => {
                let at: usize = find_member(members, name);
                if at < members.len() {
                    Some(&members[at].1)
                } else {
                    None
                }
            },
            _ => None,
        }
    }

    /// The member `name` where it is a text.
    pub fn get_text(&self, name: &str) -> (found: Option<String>)
        ensures
            match found {
                Some(text) => text_member(self@, name@) == Some(text@),
                None => text_member(self@, name@) is None,
            },
    {
        match self.get(name) {
            Some(Json::Text(text)) => Some(text.clone()),
            _ => None,
        }
    }

    /// The member `name` where it is an integer of 64 bits that is not negative.
    pub fn get_u64(&self, name: &str) -> (found: Option<u64>)
        ensures
            found == u64_member(self@, name@),
    {
        match self.get(name) {
            Some(Json::Number(JsonNumber::Unsigned(n))) => Some(*n),
            Some(Json::Number(JsonNumber::Negative(n))) => if *n >= 0 {
                Some(*n as u64)
            } else {
                None
            },
            _ => None,
        }
    }

    /// The member `name` where it is a truth value.
    pub fn get_bool(&self, name: &str) -> (found: Option<bool>)
        ensures
            found == bool_member(self@, name@),
    {
        match self.get(name) {
            Some(Json::Bool(b)) => Some(*b),
            _ => None,
        }
    }

    /// A copy of the value with the member `name` replaced, where it has one.
    pub fn replace_member(&self, name: &str, new: Json) -> (changed: Json)
        ensures
            changed@ == with_member(self@, name@, new@),
    {
        proof {
            lemma_compound_view(*self);
        }
        let mut other = self.copy();
        proof {
            lemma_compound_view(other);
        }
        match other {
            Json::Object(mut members) => {
                let at: usize = find_member(&members, name);
                let ghost before = member_views(members@);
                let ghost written = new@;
                if at < members.len() {
                    let key: String = members[at].0.clone();
                    let ghost named = key@;
                    members.set(at, (key, new));
                    assert(member_views(members@) =~= before.update(at as int, (named, written)));
                }
                let changed = Json::Object(members);
                proof {
                    lemma_compound_view(changed);
                }
                changed
            },
            unchanged => unchanged,
        }
    }
}

// ---------------------------------------------------------------------------
// Writing
// ---------------------------------------------------------------------------

/// A hexadecimal digit in lower case.
pub open spec fn hex_digit(d: int) -> char {
    if d < 10 {
        crate::number::digit(d)
    } else if d == 10 {
        'a'
    } else if d == 11 {
        'b'
    } else if d == 12 {
        'c'
    } else if d == 13 {
        'd'
    } else if d == 14 {
        'e'
    } else {
        'f'
    }
}

/// The hexadecimal digits are those of the decimal numbers, and behind them the letters
/// from `a` on.
pub proof fn law_hex_digits(d: int)
    requires
        0 <= d < 16,
    ensures
        hex_digit(d) as u32 == (if d < 10 {
            '0' as u32 + d
        } else {
            'a' as u32 + (d - 10)
        }),
{
}

/// How a character is written inside a JSON string.
pub open spec fn escaped(c: char) -> Seq<char> {
    if c == '"' {
        seq!['\\', '"']
    } else if c == '\\' {
        seq!['\\', '\\']
    } else if c == '\u{8}' {
        seq!['\\', 'b']
    } else if c == '\t' {
        seq!['\\', 't']
    } else if c == '\n' {
        seq!['\\', 'n']
    } else if c == '\u{c}' {
        seq!['\\', 'f']
    } else if c == '\r' {
        seq!['\\', 'r']
    } else if c <= '\u{1f}' {
        seq!['\\', 'u', '0', '0', hex_digit(c as int / 16), hex_digit(c as int % 16)]
    } else {
        seq![c]
    }
}

/// How a row of characters is written inside a JSON string.
pub open spec fn escaped_all(s: Seq<char>) -> Seq<char>
    decreases s.len(),
{
    if s.len() == 0 {
        seq![]
    } else {
        escaped_all(s.drop_last()) + escaped(s.last())
    }
}

/// `s` as a JSON string.
pub open spec fn quoted(s: Seq<char>) -> Seq<char> {
    seq!['"'] + escaped_all(s) + seq!['"']
}

/// How a number is written.
pub open spec fn number_text(n: JsonNumberView) -> Seq<char> {
    match n {
        JsonNumberView::Unsigned(n) => decimal(n as nat),
        JsonNumberView::Negative(n) => signed_decimal(n as int),
        JsonNumberView::Float(text) => text,
    }
}

/// `value` as JSON without white space.
pub open spec fn json_text(value: JsonView) -> Seq<char>
    decreases value, 0int,
{
    match value {
        JsonView::Null => "null"@,
        JsonView::Bool(b) => if b {
            "true"@
        } else {
            "false"@
        },
        JsonView::Number(n) => number_text(n),
        JsonView::Text(text) => quoted(text),
        JsonView::Array(items) => "["@ + items_text(items, items.len() as int) + "]"@,
        JsonView::Object(members) => "{"@ + members_text(members, members.len() as int) + "}"@,
    }
}

/// The first `n` items of an array, with commas between them.
pub open spec fn items_text(items: Seq<JsonView>, n: int) -> Seq<char>
    decreases items, n,
{
    if n <= 0 || n > items.len() {
        seq![]
    } else if n == 1 {
        json_text(items[0])
    } else {
        items_text(items, n - 1) + ","@ + json_text(items[n - 1])
    }
}

/// The first `n` members of an object, with commas between them.
pub open spec fn members_text(members: Seq<(Seq<char>, JsonView)>, n: int) -> Seq<char>
    decreases members, n,
{
    if n <= 0 || n > members.len() {
        seq![]
    } else if n == 1 {
        quoted(members[0].0) + ":"@ + json_text(members[0].1)
    } else {
        members_text(members, n - 1) + ","@ + (quoted(members[n - 1].0) + ":"@ + json_text(
            members[n - 1].1,
        ))
    }
}

proof fn lemma_items_joined(items: Seq<JsonView>, n: int)
    requires
        0 <= n <= items.len(),
    ensures
        items_text(items, n) == joined(
            Seq::new(n as nat, |i: int| json_text(items[i])),
            ","@,
        ),
    decreases n,
{
    let texts = Seq::new(n as nat, |i: int| json_text(items[i]));
    if n > 0 {
        lemma_items_joined(items, n - 1);
        assert(texts.drop_last() =~= Seq::new((n - 1) as nat, |i: int| json_text(items[i])));
    }
}

proof fn lemma_members_joined(members: Seq<(Seq<char>, JsonView)>, n: int)
    requires
        0 <= n <= members.len(),
    ensures
        members_text(members, n) == joined(
            Seq::new(n as nat, |i: int| quoted(members[i].0) + ":"@ + json_text(members[i].1)),
            ","@,
        ),
    decreases n,
{
    let texts = Seq::new(
        n as nat,
        |i: int| quoted(members[i].0) + ":"@ + json_text(members[i].1),
    );
    if n > 0 {
        lemma_members_joined(members, n - 1);
        assert(texts.drop_last() =~= Seq::new(
            (n - 1) as nat,
            |i: int| quoted(members[i].0) + ":"@ + json_text(members[i].1),
        ));
    }
}

/// An array is written as its items with commas between them in square brackets, an object
/// as its names and values in curly ones, all of them and in their order; anything else as
/// what it is.
pub proof fn law_json_is_written_whole(
    items: Seq<JsonView>,
    members: Seq<(Seq<char>, JsonView)>,
    text: Seq<char>,
    n: u64,
)
    ensures
        json_text(JsonView::Array(items)) == "["@ + joined(
            Seq::new(items.len(), |i: int| json_text(items[i])),
            ","@,
        ) + "]"@,
        json_text(JsonView::Object(members)) == "{"@ + joined(
            Seq::new(
                members.len(),
                |i: int| json_text(JsonView::Text(members[i].0)) + ":"@ + json_text(members[i].1),
            ),
            ","@,
        ) + "}"@,
        json_text(JsonView::Text(text)) == seq!['"'] + escaped_all(text) + seq!['"'],
        json_text(JsonView::Number(JsonNumberView::Unsigned(n))) == decimal(n as nat),
        json_text(JsonView::Number(JsonNumberView::Float(text))) == text,
        json_text(JsonView::Bool(true)) == "true"@,
        json_text(JsonView::Bool(false)) == "false"@,
        json_text(JsonView::Null) == "null"@,
{
    lemma_items_joined(items, items.len() as int);
    lemma_members_joined(members, members.len() as int);
    assert(Seq::new(
        members.len(),
        |i: int| json_text(JsonView::Text(members[i].0)) + ":"@ + json_text(members[i].1),
    ) =~= Seq::new(
        members.len(),
        |i: int| quoted(members[i].0) + ":"@ + json_text(members[i].1),
    ));
}

/// Text is written character by character, and a character that needs no escape stands for
/// itself; a quote, a backslash or a control character never stands bare in what is
/// written.
pub proof fn law_escapes(front: Seq<char>, c: char, back: Seq<char>)
    ensures
        escaped_all(Seq::<char>::empty()) == Seq::<char>::empty(),
        escaped_all(front + back) == escaped_all(front) + escaped_all(back),
        escaped_all(seq![c]).len() >= 1,
        c != '"' && c != '\\' && c > '\u{1f}' ==> escaped_all(seq![c]) == seq![c],
        c == '"' || c == '\\' ==> escaped_all(seq![c]) == seq!['\\', c],
        c == '\n' ==> escaped_all(seq![c]) == seq!['\\', 'n'],
        c == '\r' ==> escaped_all(seq![c]) == seq!['\\', 'r'],
        c == '\t' ==> escaped_all(seq![c]) == seq!['\\', 't'],
        c <= '\u{1f}' ==> escaped_all(seq![c])[0] == '\\' && escaped_all(seq![c]).len() > 1,
    decreases back.len(),
{
    reveal_with_fuel(escaped_all, 2);
    assert(seq![c].drop_last() =~= Seq::<char>::empty());
    assert(escaped_all(seq![c]) =~= escaped(c));
    if back.len() > 0 {
        law_escapes(front, c, back.drop_last());
        assert((front + back).drop_last() =~= front + back.drop_last());
        assert((front + back).last() == back.last());
        assert(escaped_all(front + back) =~= escaped_all(front) + escaped_all(back));
    } else {
        assert(front + back =~= front);
        assert(escaped_all(front) + escaped_all(back) =~= escaped_all(front));
    }
}

/// A control character without a short form is written by its code, in four hexadecimal
/// digits.
pub proof fn law_control_characters(c: char)
    requires
        c <= '\u{1f}',
        c != '\u{8}' && c != '\t' && c != '\n' && c != '\u{c}' && c != '\r',
    ensures
        escaped_all(seq![c]) == seq![
            '\\',
            'u',
            '0',
            '0',
            hex_digit(c as int / 16),
            hex_digit(c as int % 16),
        ],
{
    reveal_with_fuel(escaped_all, 2);
    assert(seq![c].drop_last() =~= Seq::<char>::empty());
    assert(escaped_all(seq![c]) =~= escaped(c));
}

/// The error type of `serde_json`, which only carries through.
#[verifier::external_type_specification]
#[verifier::external_body]
pub struct ExJsonError(serde_json::Error);

/// `serde_json::to_string` on a `str`: it writes the text as a JSON string, escaping
/// quotes, backslashes and control characters, and writing to memory never fails.
#[verifier::external_body]
fn quote(s: &str) -> (q: Result<String, serde_json::Error>)
    ensures
        q is Ok,
        q->Ok_0@ == quoted(s@),
{
    serde_json::to_string(s)
}

/// Appends `s` as a JSON string.
fn push_quoted(out: &mut String, s: &str)
    ensures
        final(out)@ == old(out)@ + quoted(s@),
{
    match quote(s) {
        Ok(text) => {
            out.push_str(text.as_str());
        },
        Err(_) => {},
    }
}

impl Json {
    /// Appends the value as JSON without white space.
    fn push_text(&self, out: &mut String)
        ensures
            final(out)@ == old(out)@ + json_text(self@),
        decreases self,
    {
        let ghost start = out@;
        proof {
            lemma_compound_view(*self);
        }
        match self {
            Json::Null => {
                out.push_str("null");
            },
            Json::Bool(b) => {
                if *b {
                    out.push_str("true");
                } else {
                    out.push_str("false");
                }
            },
            Json::Number(JsonNumber::Unsigned(n)) => {
                let text = decimal_text(*n as u128);
                out.push_str(text.as_str());
            },
            Json::Number(JsonNumber::Negative(n)) => {
                let text = signed_text(*n);
                out.push_str(text.as_str());
            },
            Json::Number(JsonNumber::Float(text)) => {
                out.push_str(text.as_str());
            },
            Json::Text(text) => {
                push_quoted(out, text.as_str());
            },
            Json::Array(items) => {
                out.push_str("[");
                let ghost seen = json_views(items@);
                let mut i: usize = 0;
                assert(out@ =~= start + ("["@ + items_text(seen, 0)));
                while i < items.len()
                    invariant
                        i <= items@.len(),
                        seen == json_views(items@),
                        *self == Json::Array(*items),
                        out@ == start + ("["@ + items_text(seen, i as int)),
                    decreases items@.len() - i,
                {
                    assert(decreases_to!(*self => self->Array_0@[i as int]));
                    let ghost so_far = items_text(seen, i as int);
                    if i > 0 {
                        out.push_str(",");
                        items[i].push_text(out);
                        assert(out@ =~= start + ("["@ + (so_far + ","@ + json_text(
                            seen[i as int],
                        ))));
                    } else {
                        items[i].push_text(out);
                        assert(out@ =~= start + ("["@ + json_text(seen[0])));
                    }
                    i = i + 1;
                }
                out.push_str("]");
                assert(out@ =~= start + ("["@ + items_text(seen, seen.len() as int) + "]"@));
            },
            Json::Object(members) => {
                out.push_str("{");
                let ghost seen = member_views(members@);
                let mut i: usize = 0;
                assert(out@ =~= start + ("{"@ + members_text(seen, 0)));
                while i < members.len()
                    invariant
                        i <= members@.len(),
                        seen == member_views(members@),
                        *self == Json::Object(*members),
                        out@ == start + ("{"@ + members_text(seen, i as int)),
                    decreases members@.len() - i,
                {
                    assert(decreases_to!(*self => self->Object_0@[i as int].1));
                    let ghost so_far = members_text(seen, i as int);
                    if i > 0 {
                        out.push_str(",");
                    }
                    push_quoted(out, members[i].0.as_str());
                    out.push_str(":");
                    members[i].1.push_text(out);
                    proof {
                        let last = quoted(seen[i as int].0) + ":"@ + json_text(seen[i as int].1);
                        if i > 0 {
                            assert(out@ =~= start + ("{"@ + (so_far + ","@ + last)));
                        } else {
                            assert(out@ =~= start + ("{"@ + last));
                        }
                    }
                    i = i + 1;
                }
                out.push_str("}");
                assert(out@ =~= start + ("{"@ + members_text(seen, seen.len() as int) + "}"@));
            },
        }
    }

    /// The value as JSON without white space.
    pub fn to_text(&self) -> (text: String)
        ensures
            text@ == json_text(self@),
    {
        let mut text = String::new();
        self.push_text(&mut text);
        assert(text@ =~= json_text(self@));
        text
    }
}

// ---------------------------------------------------------------------------
// Lists of strings
// ---------------------------------------------------------------------------

/// The JSON array that holds `list`.
pub open spec fn text_array(list: Seq<Seq<char>>) -> JsonView {
    JsonView::Array(Seq::new(list.len(), |i: int| JsonView::Text(list[i])))
}

/// A list of texts is an array of as many texts, in their order.
pub proof fn law_text_array(list: Seq<Seq<char>>, i: int)
    ensures
        text_array(list) matches JsonView::Array(items) && items.len() == list.len() && (0 <= i
            < list.len() ==> items[i] == JsonView::Text(list[i])),
{
}

/// The strings that a JSON text holds, where it is an array of strings and nothing else.
pub uninterp spec fn parsed_strings(text: Seq<char>) -> Option<Seq<Seq<char>>>;

/// `serde_json::to_string` on a list of strings: it writes them as a JSON array without
/// white space, from which the same strings are read back; writing to memory never fails.
#[verifier::external_body]
fn write_strings(list: &Vec<String>) -> (text: Result<String, serde_json::Error>)
    ensures
        text is Ok,
        text->Ok_0@ == json_text(text_array(views(list@))),
        parsed_strings(text->Ok_0@) == Some(views(list@)),
{
    serde_json::to_string(list)
}

/// `serde_json::from_str` for a list of strings: what it returns depends on the text
/// alone.
#[verifier::external_body]
fn read_strings(text: &str) -> (list: Result<Vec<String>, serde_json::Error>)
    ensures
        match list {
            Ok(list) => parsed_strings(text@) == Some(views(list@)),
            Err(_) => parsed_strings(text@) is None,
        },
{
    serde_json::from_str(text)
}

/// The JSON array that holds `list`, as text. Reading it gives `list` back.
pub fn strings_to_json(list: &Vec<String>) -> (text: String)
    ensures
        text@ == json_text(text_array(views(list@))),
        parsed_strings(text@) == Some(views(list@)),
{
    match write_strings(list) {
        Ok(text) => text,
        Err(_) => String::new(),
    }
}

/// The strings that a JSON text holds, where it is an array of strings and nothing else.
pub fn strings_from_json(text: &str) -> (list: Option<Vec<String>>)
    ensures
        match list {
            Some(list) => parsed_strings(text@) == Some(views(list@)),
            None => parsed_strings(text@) is None,
        },
{
    match read_strings(text) {
        Ok(list) => Some(list),
        Err(_) => None,
    }
}

} // verus!
