//! JSON text: values carried as their canonical text, and the quoting of
//! strings.

use vstd::prelude::*;

verus! {

/// The hexadecimal digit, in lower case, of a number below sixteen.
pub open spec fn hex_digit(n: int) -> char {
    if n == 0 {
        '0'
    } else if n == 1 {
        '1'
    } else if n == 2 {
        '2'
    } else if n == 3 {
        '3'
    } else if n == 4 {
        '4'
    } else if n == 5 {
        '5'
    } else if n == 6 {
        '6'
    } else if n == 7 {
        '7'
    } else if n == 8 {
        '8'
    } else if n == 9 {
        '9'
    } else if n == 10 {
        'a'
    } else if n == 11 {
        'b'
    } else if n == 12 {
        'c'
    } else if n == 13 {
        'd'
    } else if n == 14 {
        'e'
    } else {
        'f'
    }
}

/// How one character stands inside a JSON string: the quote and the backslash
/// get a backslash in front, the control characters below U+0020 their short
/// escape or `\u00XX`, and every other character stands for itself.
pub open spec fn escaped_char(c: char) -> Seq<char> {
    if c == '"' {
        seq!['\\', '"']
    } else if c == '\\' {
        seq!['\\', '\\']
    } else if c == '\u{8}' {
        seq!['\\', 'b']
    } else if c == '\u{9}' {
        seq!['\\', 't']
    } else if c == '\u{a}' {
        seq!['\\', 'n']
    } else if c == '\u{c}' {
        seq!['\\', 'f']
    } else if c == '\u{d}' {
        seq!['\\', 'r']
    } else if (c as int) < 32 {
        seq!['\\', 'u', '0', '0', hex_digit((c as int) / 16), hex_digit((c as int) % 16)]
    } else {
        seq![c]
    }
}

/// The characters of `s`, each as it stands inside a JSON string.
pub open spec fn escaped(s: Seq<char>) -> Seq<char>
    decreases s.len(),
{
    if s.len() == 0 {
        Seq::empty()
    } else {
        escaped(s.drop_last()) + escaped_char(s.last())
    }
}

/// The JSON text of the string `s`: its escaped characters between quotes.
pub open spec fn quoted(s: Seq<char>) -> Seq<char> {
    seq!['"'] + escaped(s) + seq!['"']
}

/// What `serde_json` makes of a JSON text when it parses it into a value and
/// writes that value out again in its compact form; `None` where the text is
/// no JSON value.
pub uninterp spec fn canonical_text(text: Seq<char>) -> Option<Seq<char>>;

/// Calls `serde_json::to_string` on a string slice. The contract says that
/// the result is the string between quotes, with the escapes that
/// `serde_json` writes: `\"`, `\\`, `\b`, `\t`, `\n`, `\f`, `\r`, and
/// `\u00XX` in lower-case hexadecimal for the other characters below U+0020.
#[verifier::external_body]
fn to_json_string(s: &str) -> (text: String)
    ensures
        text@ == quoted(s@),
{
    match serde_json::to_string(s) {
        Ok(text) => text,
        Err(_) => String::new(),
    }
}

/// Calls `serde_json::from_str` for a `serde_json::Value` and writes the value
/// out again with its `to_string`. The contract only names the result.
#[verifier::external_body]
fn reserialize(text: &str) -> (out: Option<String>)
    ensures
        match out {
            Some(t) => canonical_text(text@) == Some(t@),
            None => canonical_text(text@) is None,
        },
{
    match serde_json::from_str::<serde_json::Value>(text) {
        Ok(value) => Some(value.to_string()),
        Err(_) => None,
    }
}

/// A JSON value, held as its text.
///
/// Two values are the same JSON value where their texts are equal; values
/// that come out of [`JsonValue::parse`] are in canonical form, so that there
/// equal texts mean equal values.
#[derive(Debug, Clone, PartialEq, Eq)]
pub struct JsonValue {
    text: String,
}

impl View for JsonValue {
    type V = Seq<char>;

    closed spec fn view(&self) -> Seq<char> {
        self.text@
    }
}

/// The text of an optional value, `None` where there is no value.
pub open spec fn text_of(value: Option<JsonValue>) -> Option<Seq<char>> {
    match value {
        Some(v) => Some(v@),
        None => None,
    }
}

impl JsonValue {
    /// The value that the JSON text `text` denotes, in canonical form, or
    /// `None` where `text` is no JSON value.
    pub fn parse(text: &str) -> (value: Option<JsonValue>)
        ensures
            text_of(value) == canonical_text(text@),
    {
        match reserialize(text) {
            Some(t) => Some(JsonValue { text: t }),
            None => None,
        }
    }

    /// `null`.
    pub fn null() -> (value: JsonValue)
        ensures
            value@ == "null"@,
    {
        JsonValue { text: "null".to_owned() }
    }

    /// `true` or `false`.
    pub fn boolean(b: bool) -> (value: JsonValue)
        ensures
            value@ == if b {
                "true"@
            } else {
                "false"@
            },
    {
        if b {
            JsonValue { text: "true".to_owned() }
        } else {
            JsonValue { text: "false".to_owned() }
        }
    }

    /// The JSON string with the characters of `s`.
    pub fn string(s: &str) -> (value: JsonValue)
        ensures
            value@ == quoted(s@),
    {
        JsonValue { text: to_json_string(s) }
    }

    /// The empty object, `{}`.
    pub fn empty_object() -> (value: JsonValue)
        ensures
            value@ == "{}"@,
    {
        JsonValue { text: "{}".to_owned() }
    }

    /// The value's text.
    pub fn as_str(&self) -> (text: &str)
        ensures
            text@ == self@,
    {
        self.text.as_str()
    }

    /// A copy of the value.
    pub fn duplicate(&self) -> (copy: JsonValue)
        ensures
            copy@ == self@,
    {
        JsonValue { text: self.text.clone() }
    }

    /// Whether two values have the same text.
    pub fn same(&self, other: &JsonValue) -> (equal: bool)
        ensures
            equal == (self@ == other@),
    {
        self.text == other.text
    }
}

/// Whether two optional values differ: one is absent and the other is not, or
/// both are present with different texts.
pub fn differ(a: &Option<JsonValue>, b: &Option<JsonValue>) -> (changed: bool)
    ensures
        changed == (text_of(*a) != text_of(*b)),
{
    match a {
        Some(x) => match b {
            Some(y) => !x.same(y),
            None => true,
        },
        None => b.is_some(),
    }
}

} // verus!
