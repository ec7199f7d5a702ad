//! JSON values, as far as anything here reads them.

use vstd::prelude::*;

use crate::text::number::hex_digit;
use crate::text::search::same;

verus! {

/// A JSON value.
#[derive(Debug, PartialEq, Eq)]
pub enum Json {
    Null,
    Bool(bool),
    /// The number, where it is an integer.
    Number(Option<i128>),
    Text(String),
    Array(Vec<Json>),
    Object(Vec<(String, Json)>),
}

/// The value of the first field called `key`.
pub open spec fn first_field(fields: Seq<(String, Json)>, key: Seq<char>) -> Option<Json>
    decreases fields.len(),
{
    if fields.len() == 0 {
        None
    } else if fields[0].0@ == key {
        Some(fields[0].1)
    } else {
        first_field(fields.skip(1), key)
    }
}

impl Json {
    /// The field `key` of an object.
    pub open spec fn field(self, key: Seq<char>) -> Option<Json> {
        match self {
            Json::Object(fields) => first_field(fields@, key),
            _ => None,
        }
    }

    /// The text of a string.
    pub open spec fn text(self) -> Option<Seq<char>> {
        match self {
            Json::Text(text) => Some(text@),
            _ => None,
        }
    }

    /// The items of an array.
    pub open spec fn items(self) -> Option<Seq<Json>> {
        match self {
            Json::Array(items) => Some(items@),
            _ => None,
        }
    }

    /// The value of a boolean.
    pub open spec fn flag(self) -> Option<bool> {
        match self {
            Json::Bool(flag) => Some(flag),
            _ => None,
        }
    }

    /// The integer of a number.
    pub open spec fn integer(self) -> Option<int> {
        match self {
            Json::Number(Some(n)) => Some(n as int),
            _ => None,
        }
    }

    /// The field `key` as a text.
    pub open spec fn field_text(self, key: Seq<char>) -> Option<Seq<char>> {
        match self.field(key) {
            Some(value) => value.text(),
            None => None,
        }
    }

    /// The field `key`, if this is an object that has one.
    pub fn get(&self, key: &str) -> (value: Option<&Json>)
        ensures
            match value {
                Some(value) => self.field(key@) == Some(*value),
                None => self.field(key@) is None,
            },
    {
        match self {
            Json::Object(fields) => {
                let mut i: usize = 0;
                assert(fields@.skip(0) =~= fields@);
                while i < fields.len()
                    invariant
                        i <= fields@.len(),
                        *self == Json::Object(*fields),
                        self.field(key@) == first_field(fields@.skip(i as int), key@),
                    decreases fields@.len() - i,
                {
                    assert(fields@.skip(i as int).skip(1) =~= fields@.skip(i + 1));
                    if same(fields[i].0.as_str(), key) {
                        return Some(&fields[i].1);
                    }
                    i += 1;
                }
                None
            },
            _ => None,
        }
    }

    /// The text, if this is a string.
    pub fn as_str(&self) -> (text: Option<&str>)
        ensures
            match text {
                Some(text) => self.text() == Some(text@),
                None => self.text() is None,
            },
    {
        match self {
            Json::Text(text) => Some(text.as_str()),
            _ => None,
        }
    }

    /// The items, if this is an array.
    pub fn as_array(&self) -> (items: Option<&Vec<Json>>)
        ensures
            match items {
                Some(items) => self.items() == Some(items@),
                None => self.items() is None,
            },
    {
        match self {
            Json::Array(items) => Some(items),
            _ => None,
        }
    }

    /// The value, if this is a boolean.
    pub fn as_bool(&self) -> (flag: Option<bool>)
        ensures
            flag == self.flag(),
    {
        match self {
            Json::Bool(flag) => Some(*flag),
            _ => None,
        }
    }

    /// The number, if it is an integer that fits.
    pub fn as_i64(&self) -> (n: Option<i64>)
        ensures
            match n {
                Some(n) => self.integer() == Some(n as int),
                None => self.integer() matches Some(n) ==> n < i64::MIN || i64::MAX < n,
            },
    {
        match self {
            Json::Number(Some(n)) => if i64::MIN as i128 <= *n && *n <= i64::MAX as i128 {
                Some(*n as i64)
            } else {
                None
            },
            _ => None,
        }
    }

    /// The number, if it is a natural number that fits.
    pub fn as_u64(&self) -> (n: Option<u64>)
        ensures
            match n {
                Some(n) => self.integer() == Some(n as int),
                None => self.integer() matches Some(n) ==> n < 0 || u64::MAX < n,
            },
    {
        match self {
            Json::Number(Some(n)) => if 0 <= *n && *n <= u64::MAX as i128 {
                Some(*n as u64)
            } else {
                None
            },
            _ => None,
        }
    }

    /// The field `key` as a text, if it is one.
    pub fn get_str(&self, key: &str) -> (text: Option<&str>)
        ensures
            match text {
                Some(text) => self.field_text(key@) == Some(text@),
                None => self.field_text(key@) is None,
            },
    {
        match self.get(key) {
            Some(value) => value.as_str(),
            None => None,
        }
    }
}

/// A parsed document of `serde_json`, passed on unread.
#[verifier::external_type_specification]
#[verifier::external_body]
pub struct ExValue(serde_json::Value);

/// The document `serde_json` reads a text as, or what its error says.
pub uninterp spec fn document_in(text: Seq<char>) -> Result<serde_json::Value, Seq<char>>;

/// The JSON value of a `serde_json` document.
pub uninterp spec fn value_of(document: serde_json::Value) -> Json;

/// `serde_json::from_str::<serde_json::Value>`: the document the text holds,
/// or, where the text is not one JSON document, what the error says. The
/// outcome depends on the text alone; the grammar and the wording of the
/// errors are not stated.
#[verifier::external_body]
fn read_document(text: &str) -> (document: Result<serde_json::Value, String>)
    ensures
        match document {
            Ok(document) => document_in(text@) == Ok::<serde_json::Value, Seq<char>>(document),
            Err(error) => document_in(text@) == Err::<serde_json::Value, Seq<char>>(error@),
        },
{
    serde_json::from_str::<serde_json::Value>(text).map_err(|error| error.to_string())
}

/// The variants of `serde_json::Value`, one for one. A number keeps what
/// `serde_json::Number::as_i128` makes of it.
#[verifier::external_body]
fn convert(document: serde_json::Value) -> (value: Json)
    ensures
        value == value_of(document),
{
    match document {
        serde_json::Value::Null => Json::Null,
        serde_json::Value::Bool(flag) => Json::Bool(flag),
        serde_json::Value::Number(number) => Json::Number(number.as_i128()),
        serde_json::Value::String(text) => Json::Text(text),
        serde_json::Value::Array(items) => Json::Array(items.into_iter().map(convert).collect()),
        serde_json::Value::Object(fields) => Json::Object(
            fields.into_iter().map(|(key, value)| (key, convert(value))).collect(),
        ),
    }
}

/// The JSON value a text holds, or what is wrong with it.
pub open spec fn parsed(text: Seq<char>) -> Result<Json, Seq<char>> {
    match document_in(text) {
        Ok(document) => Ok(value_of(document)),
        Err(error) => Err(error),
    }
}

/// Read a text as JSON.
///
/// # Errors
/// What the parser says of a text that is not one JSON document.
pub fn parse(text: &str) -> (value: Result<Json, String>)
    ensures
        match value {
            Ok(value) => parsed(text@) == Ok::<Json, Seq<char>>(value),
            Err(error) => parsed(text@) == Err::<Json, Seq<char>>(error@),
        },
{
    match read_document(text) {
        Ok(document) => Ok(convert(document)),
        Err(error) => Err(error),
    }
}

/// How a character stands inside a JSON string: a quote, a backslash and the
/// control characters are escaped, five of them by a letter and the others by
/// their number.
pub open spec fn escaped(c: char) -> Seq<char> {
    if c == '"' || c == '\\' {
        seq!['\\', c]
    } else if c == '\u{8}' {
        seq!['\\', 'b']
    } else if c == '\t' {
        seq!['\\', 't']
    } else if c == '\n' {
        seq!['\\', 'n']
    } else if c == '\u{c}' {
        seq!['\\', 'f']
    } else if c == '\r' {
        seq!['\\', 'r']
    } else if (c as int) < 32 {
        seq!['\\', 'u', '0', '0', hex_digit(c as int / 16), hex_digit(c as int % 16)]
    } else {
        seq![c]
    }
}

/// A text as it stands inside a JSON string.
pub open spec fn all_escaped(text: Seq<char>) -> Seq<char>
    decreases text.len(),
{
    if text.len() == 0 {
        Seq::empty()
    } else {
        all_escaped(text.drop_last()) + escaped(text.last())
    }
}

/// The JSON string of a text.
pub open spec fn json_quoted(text: Seq<char>) -> Seq<char> {
    seq!['"'] + all_escaped(text) + seq!['"']
}

/// Without a line feed.
pub open spec fn one_line(s: Seq<char>) -> bool {
    forall|i: int| 0 <= i < s.len() ==> #[trigger] s[i] != '\n'
}

/// `document` is the JSON string of a text.
pub open spec fn reads_as(document: Seq<char>, text: Seq<char>) -> bool {
    match parsed(document) {
        Ok(value) => value.text() == Some(text),
        Err(_) => false,
    }
}

/// The `Display` of a `serde_json::Value` that holds a string: the text in
/// double quotes, with quotes, backslashes and control characters escaped, and
/// no other character. The result reads back as the text.
#[verifier::external_body]
fn write_string(text: &str) -> (quoted: String)
    ensures
        quoted@ == json_quoted(text@),
        reads_as(quoted@, text@),
{
    serde_json::Value::from(text).to_string()
}

/// The escape of a character holds no line feed.
proof fn lemma_escape_one_line(c: char)
    ensures
        one_line(escaped(c)),
{
    let code = c as int;
    if code < 32 {
        assert(0 <= code / 16 < 16 && 0 <= code % 16 < 16);
        assert(hex_digit(code / 16) as int >= 48);
        assert(hex_digit(code % 16) as int >= 48);
    }
}

/// Escaping leaves no line feed.
proof fn lemma_escaped_one_line(text: Seq<char>)
    ensures
        one_line(all_escaped(text)),
    decreases text.len(),
{
    if text.len() > 0 {
        lemma_escaped_one_line(text.drop_last());
        lemma_escape_one_line(text.last());
    }
}

/// The JSON string of a text: one line, which reads back as the text.
pub fn quote(text: &str) -> (quoted: String)
    ensures
        quoted@ == json_quoted(text@),
        one_line(quoted@),
        reads_as(quoted@, text@),
{
    proof {
        lemma_escaped_one_line(text@);
    }
    write_string(text)
}

/// A field is found by its name, and of two of one name the first; an object
/// without it, and anything that is no object, has none.
pub proof fn a_field_is_found_by_its_name(fields: Seq<(String, Json)>, key: Seq<char>, i: int)
    requires
        0 <= i < fields.len(),
    ensures
        fields[i].0@ == key && (forall|j: int| 0 <= j < i ==> (#[trigger] fields[j]).0@ != key)
            ==> first_field(fields, key) == Some(fields[i].1),
        first_field(fields, key) is None <==> (forall|j: int|
            0 <= j < fields.len() ==> (#[trigger] fields[j]).0@ != key),
    decreases fields.len(),
{
    let rest = fields.skip(1);
    if fields[0].0@ != key {
        if rest.len() > 0 {
            let k: int = if i > 0 {
                i - 1
            } else {
                0
            };
            a_field_is_found_by_its_name(rest, key, k);
            assert forall|j: int| 0 <= j < rest.len() implies rest[j] == fields[j + 1] by {}
            if forall|j: int| 0 <= j < i ==> (#[trigger] fields[j]).0@ != key {
                assert forall|j: int| 0 <= j < k implies (#[trigger] rest[j]).0@ != key by {
                    assert(rest[j] == fields[j + 1]);
                }
            }
            if forall|j: int| 0 <= j < rest.len() ==> (#[trigger] rest[j]).0@ != key {
                assert forall|j: int| 0 <= j < fields.len() implies (#[trigger] fields[j]).0@
                    != key by {
                    if j > 0 {
                        assert(rest[j - 1] == fields[j]);
                    }
                }
            }
            if forall|j: int| 0 <= j < fields.len() ==> (#[trigger] fields[j]).0@ != key {
                assert forall|j: int| 0 <= j < rest.len() implies (#[trigger] rest[j]).0@ != key by {
                    assert(rest[j] == fields[j + 1]);
                }
            }
        } else {
            assert(first_field(rest, key) is None);
        }
    }
}

/// A value is read as what it is and as nothing else.
pub proof fn a_value_is_read_as_what_it_is(value: Json, key: Seq<char>)
    ensures
        value.text() is Some <==> value is Text,
        value.items() is Some <==> value is Array,
        value.flag() is Some <==> value is Bool,
        value matches Json::Text(text) ==> value.text() == Some(text@),
        value matches Json::Array(items) ==> value.items() == Some(items@),
        value matches Json::Bool(flag) ==> value.flag() == Some(flag),
        value matches Json::Number(Some(n)) ==> value.integer() == Some(n as int),
        !(value is Number) ==> value.integer() is None,
        !(value is Object) ==> value.field(key) is None,
        value matches Json::Object(fields) ==> value.field(key) == first_field(fields@, key),
{
}

/// A quoted text is the text itself, between quotes, where nothing in it needs
/// an escape; a quote, a backslash and a line end are escaped by one sign, and
/// each character is escaped by itself.
pub proof fn only_what_needs_it_is_escaped(text: Seq<char>, more: Seq<char>, c: char)
    ensures
        (forall|i: int|
            0 <= i < text.len() ==> (#[trigger] text[i] as int) >= 32 && text[i] != '"' && text[i]
                != '\\') ==> json_quoted(text) == "\""@ + text + "\""@,
        all_escaped(text + more) == all_escaped(text) + all_escaped(more),
        all_escaped(seq![c]) == escaped(c),
        escaped('"') == seq!['\\', '"'] && escaped('\\') == seq!['\\', '\\'],
        escaped('\n') == seq!['\\', 'n'] && escaped('\r') == seq!['\\', 'r'] && escaped('\t')
            == seq!['\\', 't'],
        escaped('\u{8}') == seq!['\\', 'b'] && escaped('\u{c}') == seq!['\\', 'f'],
        (c as int) < 8 ==> escaped(c) == seq!['\\', 'u', '0', '0', '0', hex_digit(c as int)],
        16 <= (c as int) < 32 ==> escaped(c) == seq![
            '\\',
            'u',
            '0',
            '0',
            '1',
            hex_digit(c as int - 16),
        ],
{
    reveal_strlit("\"");
    assert(seq!['"'] =~= "\""@);
    if forall|i: int|
        0 <= i < text.len() ==> (#[trigger] text[i] as int) >= 32 && text[i] != '"' && text[i]
            != '\\' {
        lemma_nothing_escaped(text);
    }
    lemma_escaped_add(text, more);
    assert(seq![c].drop_last() =~= Seq::empty());
    assert(all_escaped(seq![c].drop_last()) =~= Seq::empty());
    assert(Seq::<char>::empty() + escaped(c) =~= escaped(c));
}

proof fn lemma_nothing_escaped(text: Seq<char>)
    requires
        forall|i: int|
            0 <= i < text.len() ==> (#[trigger] text[i] as int) >= 32 && text[i] != '"' && text[i]
                != '\\',
    ensures
        all_escaped(text) == text,
    decreases text.len(),
{
    if text.len() > 0 {
        let front = text.drop_last();
        assert forall|i: int| 0 <= i < front.len() implies (#[trigger] front[i] as int) >= 32
            && front[i] != '"' && front[i] != '\\' by {
            assert(front[i] == text[i]);
        }
        lemma_nothing_escaped(front);
        let last = text[text.len() - 1];
        assert((last as int) >= 32 && last != '"' && last != '\\');
        assert(escaped(last) =~= seq![last]);
        assert(front + seq![last] =~= text);
    }
}

proof fn lemma_escaped_add(a: Seq<char>, b: Seq<char>)
    ensures
        all_escaped(a + b) == all_escaped(a) + all_escaped(b),
    decreases b.len(),
{
    if b.len() == 0 {
        assert(a + b =~= a);
        assert(all_escaped(a) + all_escaped(b) =~= all_escaped(a));
    } else {
        assert((a + b).drop_last() =~= a + b.drop_last());
        lemma_escaped_add(a, b.drop_last());
        assert(all_escaped(a) + all_escaped(b.drop_last()) + escaped(b.last()) =~= all_escaped(a)
            + (all_escaped(b.drop_last()) + escaped(b.last())));
    }
}

} // verus!
