//! JSON values: what they hold, how they are read, and their compact text.

use vstd::prelude::*;
use vstd::string::*;

use crate::search::first_where;
use crate::search::lemma_first_where_at;
use crate::search::lemma_first_where_none;

verus! {

/// A JSON value. A number is held by its decimal text, which nothing here reads.
#[derive(Debug)]
pub enum Value {
    Null,
    Bool(bool),
    Number(String),
    Text(String),
    Array(Vec<Value>),
    Object(Vec<(String, Value)>),
}

/// What a [`Value`] stands for: a tree with texts, lists and members in order.
pub enum JsonView {
    Null,
    Bool(bool),
    Number(Seq<char>),
    Text(Seq<char>),
    Array(Seq<JsonView>),
    Object(Seq<(Seq<char>, JsonView)>),
}

/// The tree that `value` stands for.
pub open spec fn json_view(value: Value) -> JsonView
    decreases value,
{
    match value {
        Value::Null => JsonView::Null,
        Value::Bool(b) => JsonView::Bool(b),
        Value::Number(digits) => JsonView::Number(digits@),
        Value::Text(text) => JsonView::Text(text@),
        Value::Array(items) => JsonView::Array(
            Seq::new(
                items@.len(),
                |i: int|
                    if 0 <= i < items@.len() {
                        json_view(items@[i])
                    } else {
                        JsonView::Null
                    },
            ),
        ),
        Value::Object(members) => JsonView::Object(
            Seq::new(
                members@.len(),
                |i: int|
                    if 0 <= i < members@.len() {
                        (members@[i].0@, json_view(members@[i].1))
                    } else {
                        (seq![], JsonView::Null)
                    },
            ),
        ),
    }
}

impl View for Value {
    type V = JsonView;

    open spec fn view(&self) -> JsonView {
        json_view(*self)
    }
}

impl Clone for Value {
    fn clone(&self) -> (copy: Self)
        ensures
            copy@ == self@,
        decreases self,
    {
        match self {
            Value::Null => Value::Null,
            Value::Bool(b) => Value::Bool(*b),
            Value::Number(digits) => Value::Number(digits.clone()),
            Value::Text(text) => Value::Text(text.clone()),
            Value::Array(items) => {
                let mut copies: Vec<Value> = Vec::new();
                let mut i: usize = 0;
                while i < items.len()
                    invariant
                        *self == Value::Array(*items),
                        i <= items@.len(),
                        copies@.len() == i,
                        forall|j: int| 0 <= j < i ==> (#[trigger] copies@[j])@ == items@[j]@,
                    decreases items@.len() - i,
                {
                    assert(decreases_to!(*self => self->Array_0@[i as int]));
                    copies.push(items[i].clone());
                    i += 1;
                }
                let copy = Value::Array(copies);
                assert(copy@->Array_0 == self@->Array_0);
                copy
            },
            Value::Object(members) => {
                let mut copies: Vec<(String, Value)> = Vec::new();
                let mut i: usize = 0;
                while i < members.len()
                    invariant
                        *self == Value::Object(*members),
                        i <= members@.len(),
                        copies@.len() == i,
                        forall|j: int|
                            0 <= j < i ==> (#[trigger] copies@[j]).0@ == members@[j].0@
                                && copies@[j].1@ == members@[j].1@,
                    decreases members@.len() - i,
                {
                    assert(decreases_to!(*self => self->Object_0@[i as int].1));
                    copies.push((members[i].0.clone(), members[i].1.clone()));
                    i += 1;
                }
                let copy = Value::Object(copies);
                assert(copy@->Object_0 == self@->Object_0);
                copy
            },
        }
    }
}

/// The condition of being the member under `key`.
pub open spec fn under_key(key: Seq<char>) -> spec_fn((Seq<char>, JsonView)) -> bool {
    |member: (Seq<char>, JsonView)| member.0 == key
}

/// The first member of an object under `key`; no other value has members.
pub open spec fn member(value: JsonView, key: Seq<char>) -> Option<JsonView> {
    match value {
        JsonView::Object(members) => match first_where(members, under_key(key)) {
            Some(i) => Some(members[i].1),
            None => None,
        },
        _ => None,
    }
}

/// `a` stands before `b` in the order of their characters.
pub open spec fn text_before(a: Seq<char>, b: Seq<char>) -> bool
    decreases a.len(),
{
    if a.len() == 0 || b.len() == 0 {
        b.len() > 0
    } else if a[0] == b[0] {
        text_before(a.drop_first(), b.drop_first())
    } else {
        a[0] < b[0]
    }
}

/// One or more decimal digits.
pub open spec fn decimal_digits(s: Seq<char>) -> bool {
    s.len() > 0 && forall|i: int| 0 <= i < s.len() ==> '0' <= #[trigger] s[i] <= '9'
}

/// A whole number: digits without a leading zero.
pub open spec fn whole_part(s: Seq<char>) -> bool {
    decimal_digits(s) && (s.len() > 1 ==> s[0] != '0')
}

/// The fraction of a number, if it has one: a point and digits.
pub open spec fn fraction_part(s: Seq<char>) -> bool {
    s.len() > 0 ==> s[0] == '.' && decimal_digits(s.drop_first())
}

/// The exponent of a number, if it has one: an `e`, perhaps a sign, and digits.
pub open spec fn exponent_part(s: Seq<char>) -> bool {
    s.len() > 0 ==> (s[0] == 'e' || s[0] == 'E') && (decimal_digits(s.drop_first()) || (s.len() > 1
        && (s[1] == '+' || s[1] == '-') && decimal_digits(s.skip(2))))
}

/// The text of a JSON number: perhaps a minus, a whole number, a fraction and an
/// exponent.
pub open spec fn number_text(s: Seq<char>) -> bool {
    let size = if s.len() > 0 && s[0] == '-' {
        s.drop_first()
    } else {
        s
    };
    exists|i: int, j: int|
        0 <= i <= j <= size.len() && #[trigger] whole_part(size.take(i)) && fraction_part(
            size.subrange(i, j),
        ) && #[trigger] exponent_part(size.skip(j))
}

/// The keys of an object stand in ascending order; so no key stands twice.
pub open spec fn keys_ascend(members: Seq<(Seq<char>, JsonView)>) -> bool {
    forall|i: int, j: int|
        0 <= i < j < members.len() ==> text_before(
            (#[trigger] members[i]).0,
            (#[trigger] members[j]).0,
        )
}

/// A value as a JSON document gives it: its numbers are numbers, and the keys of each
/// of its objects stand once, in ascending order.
pub open spec fn well_formed(value: JsonView) -> bool
    decreases value,
{
    match value {
        JsonView::Number(digits) => number_text(digits),
        JsonView::Array(items) => forall|i: int|
            0 <= i < items.len() ==> well_formed(#[trigger] items[i]),
        JsonView::Object(members) => keys_ascend(members) && forall|i: int|
            0 <= i < members.len() ==> well_formed((#[trigger] members[i]).1),
        _ => true,
    }
}

/// An object with one member.
pub open spec fn object_of(key: Seq<char>, value: JsonView) -> JsonView {
    JsonView::Object(seq![(key, value)])
}

/// The digit for `n` in hexadecimal, in lower case.
pub open spec fn hex_digit(n: int) -> char
    recommends
        0 <= n < 16,
{
    if n < 10 {
        ('0' as int + n) as u8 as char
    } else {
        ('a' as int + (n - 10)) as u8 as char
    }
}

/// How a character is written inside a JSON string.
pub open spec fn escaped_char(c: char) -> Seq<char> {
    if c == '"' {
        seq!['\\', '"']
    } else if c == '\\' {
        seq!['\\', '\\']
    } else if c == '\u{8}' {
        seq!['\\', 'b']
    } else if c == '\u{9}' {
        seq!['\\', 't']
    } else if c == '\u{a}' {
        seq!['\\', 'n']
    } else if c == '\u{c}' {
        seq!['\\', 'f']
    } else if c == '\u{d}' {
        seq!['\\', 'r']
    } else if c <= '\u{1f}' {
        seq!['\\', 'u', '0', '0', hex_digit(c as int / 16), hex_digit(c as int % 16)]
    } else {
        seq![c]
    }
}

/// How a text is written inside a JSON string.
pub open spec fn escaped(s: Seq<char>) -> Seq<char>
    decreases s.len(),
{
    if s.len() == 0 {
        seq![]
    } else {
        escaped(s.drop_last()) + escaped_char(s.last())
    }
}

/// A text as a JSON string.
pub open spec fn quoted(s: Seq<char>) -> Seq<char> {
    seq!['"'] + escaped(s) + seq!['"']
}

/// The compact text of a value: no space between its parts.
pub open spec fn compact(value: JsonView) -> Seq<char>
    decreases value, 0nat,
{
    match value {
        JsonView::Null => "null"@,
        JsonView::Bool(b) => if b {
            "true"@
        } else {
            "false"@
        },
        JsonView::Number(digits) => digits,
        JsonView::Text(text) => quoted(text),
        JsonView::Array(items) => seq!['['] + compact_items(items, items.len()) + seq![']'],
        JsonView::Object(members) => seq!['{'] + compact_members(members, members.len()) + seq!['}'],
    }
}

/// The compact texts of the first `n` items, with commas between them.
pub open spec fn compact_items(items: Seq<JsonView>, n: nat) -> Seq<char>
    decreases items, n,
{
    if n == 0 || n > items.len() {
        seq![]
    } else if n == 1 {
        compact(items[0])
    } else {
        compact_items(items, (n - 1) as nat) + seq![','] + compact(items[n - 1])
    }
}

/// The compact texts of the first `n` members, with commas between them.
pub open spec fn compact_members(members: Seq<(Seq<char>, JsonView)>, n: nat) -> Seq<char>
    decreases members, n,
{
    if n == 0 || n > members.len() {
        seq![]
    } else if n == 1 {
        quoted(members[0].0) + seq![':'] + compact(members[0].1)
    } else {
        compact_members(members, (n - 1) as nat) + seq![','] + quoted(members[n - 1].0) + seq![':']
            + compact(members[n - 1].1)
    }
}

/// `serde_json`'s `Value::to_string` on a string value: the text between quotation
/// marks, with the quotation mark, the backslash and the control characters below
/// the space escaped, those that have a short escape by it and the others by their
/// code in four hexadecimal digits.
#[verifier::external_body]
pub(crate) fn quote(text: &str) -> (literal: String)
    ensures
        literal@ == quoted(text@),
{
    serde_json::Value::String(text.to_owned()).to_string()
}

impl Value {
    /// The value of the object's member under `key`; `None` if there is no such
    /// member or the value is no object.
    pub fn get(&self, key: &str) -> (found: Option<&Value>)
        ensures
            match member(self@, key@) {
                Some(value) => found matches Some(v) && v@ == value,
                None => found is None,
            },
    {
        match self {
            Value::Object(members) => {
                let ghost views = self@->Object_0;
                let mut i: usize = 0;
                while i < members.len()
                    invariant
                        i <= members@.len(),
                        *self == Value::Object(*members),
                        views == self@->Object_0,
                        forall|j: int| 0 <= j < i ==> (#[trigger] views[j]).0 != key@,
                    decreases members@.len() - i,
                {
                    assert(views[i as int] == (members@[i as int].0@, members@[i as int].1@));
                    if *members[i].0.as_str() == *key {
                        proof {
                            lemma_first_where_at(views, under_key(key@), i as int);
                        }
                        return Some(&members[i].1);
                    }
                    i += 1;
                }
                proof {
                    lemma_first_where_none(views, under_key(key@));
                }
                None
            },
            _ => None,
        }
    }

    /// The text of a string value.
    pub fn as_str(&self) -> (text: Option<&str>)
        ensures
            match self@ {
                JsonView::Text(held) => text matches Some(t) && t@ == held,
                _ => text is None,
            },
    {
        match self {
            Value::Text(text) => Some(text.as_str()),
            _ => None,
        }
    }

    /// An object with one member.
    pub fn object(key: &str, value: Value) -> (made: Value)
        ensures
            made@ == object_of(key@, value@),
            well_formed(value@) ==> well_formed(made@),
    {
        let ghost inner = value@;
        let mut members: Vec<(String, Value)> = Vec::new();
        members.push((key.to_owned(), value));
        let made = Value::Object(members);
        assert(made@->Object_0 == seq![(key@, inner)]);
        made
    }

    /// An array with one item.
    pub fn array_of_one(value: Value) -> (made: Value)
        ensures
            made@ == JsonView::Array(seq![value@]),
            well_formed(value@) ==> well_formed(made@),
    {
        let ghost inner = value@;
        let mut items: Vec<Value> = Vec::new();
        items.push(value);
        let made = Value::Array(items);
        assert(made@->Array_0 == seq![inner]);
        made
    }

    /// The compact JSON text of the value.
    pub fn to_text(&self) -> (text: String)
        ensures
            text@ == compact(self@),
    {
        let mut text = String::new();
        self.write_text(&mut text);
        assert(text@ == compact(self@));
        text
    }

    /// Appends the compact JSON text of the value to `out`.
    fn write_text(&self, out: &mut String)
        ensures
            final(out)@ == old(out)@ + compact(self@),
        decreases self,
    {
        proof {
            reveal_strlit("[");
            reveal_strlit("]");
            reveal_strlit("{");
            reveal_strlit("}");
            reveal_strlit(",");
            reveal_strlit(":");
        }
        match self {
            Value::Null => out.append("null"),
            Value::Bool(b) => if *b {
                out.append("true");
            } else {
                out.append("false");
            },
            Value::Number(digits) => out.append(digits.as_str()),
            Value::Text(text) => out.append(quote(text.as_str()).as_str()),
            Value::Array(items) => {
                let ghost views = self@->Array_0;
                out.append("[");
                assert("["@ == seq!['[']);
                assert(compact_items(views, 0) == Seq::<char>::empty());
                let mut i: usize = 0;
                while i < items.len()
                    invariant
                        i <= items@.len(),
                        *self == Value::Array(*items),
                        views == self@->Array_0,
                        ","@ == seq![','],
                        out@ == old(out)@ + seq!['['] + compact_items(views, i as nat),
                    decreases items@.len() - i,
                {
                    if i > 0 {
                        out.append(",");
                    }
                    items[i].write_text(out);
                    assert(views[i as int] == items@[i as int]@);
                    assert(out@ == old(out)@ + seq!['['] + compact_items(views, (i + 1) as nat));
                    i += 1;
                }
                out.append("]");
                assert("]"@ == seq![']']);
                assert(out@ == old(out)@ + compact(self@));
            },
            Value::Object(members) => {
                let ghost views = self@->Object_0;
                out.append("{");
                assert("{"@ == seq!['{']);
                assert(compact_members(views, 0) == Seq::<char>::empty());
                let mut i: usize = 0;
                while i < members.len()
                    invariant
                        i <= members@.len(),
                        *self == Value::Object(*members),
                        views == self@->Object_0,
                        ","@ == seq![','],
                        ":"@ == seq![':'],
                        out@ == old(out)@ + seq!['{'] + compact_members(views, i as nat),
                    decreases members@.len() - i,
                {
                    if i > 0 {
                        out.append(",");
                    }
                    out.append(quote(members[i].0.as_str()).as_str());
                    out.append(":");
                    members[i].1.write_text(out);
                    assert(views[i as int] == (members@[i as int].0@, members@[i as int].1@));
                    assert(out@ == old(out)@ + seq!['{'] + compact_members(views, (i + 1) as nat));
                    i += 1;
                }
                out.append("}");
                assert("}"@ == seq!['}']);
                assert(out@ == old(out)@ + compact(self@));
            },
        }
    }
}

} // verus!
