//! Reading JSON documents: the few questions that the library asks of a
//! `serde_json::Value`.
use vstd::prelude::*;

verus! {

/// `serde_json::Value`, opaque but for what [`json_of`] says of it.
#[verifier::external_type_specification]
#[verifier::external_body]
pub struct ExValue(serde_json::Value);

/// `serde_json::Error`, opaque.
#[verifier::external_type_specification]
#[verifier::external_body]
pub struct ExError(serde_json::Error);

/// What a JSON value is.
pub enum Json {
    Null,
    Bool(bool),
    /// A number that is held as an integer.
    Integer(int),
    /// Any other number.
    Fraction,
    Text(Seq<char>),
    List(Seq<Json>),
    Object(Map<Seq<char>, Json>),
}

impl Json {
    /// The value of a member of an object.
    pub open spec fn member(self, key: Seq<char>) -> Option<Json> {
        match self {
            Json::Object(m) => if m.contains_key(key) {
                Some(m[key])
            } else {
                None
            },
            _ => None,
        }
    }

    /// The number, where it is an integer that fits an `i64`.
    pub open spec fn as_integer(self) -> Option<int> {
        match self {
            Json::Integer(n) => if i64::MIN <= n <= i64::MAX {
                Some(n)
            } else {
                None
            },
            _ => None,
        }
    }

    /// The text of a string.
    pub open spec fn as_text(self) -> Option<Seq<char>> {
        match self {
            Json::Text(s) => Some(s),
            _ => None,
        }
    }

    /// The integer that a member of an object holds.
    pub open spec fn integer_at(self, key: Seq<char>) -> Option<int> {
        match self.member(key) {
            Some(v) => v.as_integer(),
            None => None,
        }
    }

    /// The text that a member of an object holds.
    pub open spec fn text_at(self, key: Seq<char>) -> Option<Seq<char>> {
        match self.member(key) {
            Some(v) => v.as_text(),
            None => None,
        }
    }
}

/// What a `serde_json::Value` holds.
pub uninterp spec fn json_of(v: serde_json::Value) -> Json;

/// What `serde_json::from_slice` makes of some bytes: a value, or an error.
pub uninterp spec fn parsed_json(bytes: Seq<u8>) -> Option<Json>;

/// What each value of a list holds.
pub open spec fn jsons(s: Seq<serde_json::Value>) -> Seq<Json> {
    Seq::new(s.len(), |i: int| json_of(s[i]))
}

/// Parses a document with `serde_json::from_slice`. Trusted: whether it parses, and
/// what it holds then, is a function of the bytes alone.
#[verifier::external_body]
pub(crate) fn parse(bytes: &[u8]) -> (r: Result<serde_json::Value, serde_json::Error>)
    ensures
        match r {
            Ok(v) => parsed_json(bytes@) == Some(json_of(v)),
            Err(_) => parsed_json(bytes@) is None,
        },
{
    serde_json::from_slice(bytes)
}

/// Looks a member up with `serde_json::Value::get`. Trusted: it answers with the
/// member of that name where the value is an object that has one, and with nothing
/// otherwise.
#[verifier::external_body]
pub(crate) fn get<'a>(v: &'a serde_json::Value, key: &str) -> (r: Option<&'a serde_json::Value>)
    ensures
        match r {
            Some(m) => json_of(*v).member(key@) == Some(json_of(*m)),
            None => json_of(*v).member(key@) is None,
        },
{
    v.get(key)
}

/// The elements by `serde_json::Value::as_array`. Trusted: a list answers with its
/// elements in order, anything else with nothing.
#[verifier::external_body]
pub(crate) fn elements(v: &serde_json::Value) -> (r: Option<&Vec<serde_json::Value>>)
    ensures
        match r {
            Some(list) => json_of(*v) == Json::List(jsons(list@)),
            None => !(json_of(*v) is List),
        },
{
    v.as_array()
}

/// The text by `serde_json::Value::as_str`. Trusted: a string answers with its
/// characters, anything else with nothing.
#[verifier::external_body]
pub(crate) fn as_text(v: &serde_json::Value) -> (r: Option<&str>)
    ensures
        crate::text::opt_str(r) == json_of(*v).as_text(),
{
    v.as_str()
}

/// The number by `serde_json::Value::as_i64`. Trusted: an integer that fits an `i64`
/// answers with itself, anything else with nothing.
#[verifier::external_body]
pub(crate) fn as_integer(v: &serde_json::Value) -> (r: Option<i64>)
    ensures
        crate::number::opt_i64(r) == json_of(*v).as_integer(),
{
    v.as_i64()
}

/// The integer that a member of an object holds.
pub fn integer_at(v: &serde_json::Value, key: &str) -> (r: Option<i64>)
    ensures
        crate::number::opt_i64(r) == json_of(*v).integer_at(key@),
{
    match get(v, key) {
        Some(m) => as_integer(m),
        None => None,
    }
}

/// The text that a member of an object holds.
pub fn text_at<'a>(v: &'a serde_json::Value, key: &str) -> (r: Option<&'a str>)
    ensures
        crate::text::opt_str(r) == json_of(*v).text_at(key@),
{
    match get(v, key) {
        Some(m) => as_text(m),
        None => None,
    }
}

// -------------------------------------------------------------------- writing

/// The lower-case digit of a number below sixteen.
pub open spec fn hex_char(n: int) -> char {
    if n < 10 {
        (n + '0' as int) as char
    } else {
        (n - 10 + 'a' as int) as char
    }
}

/// A character as it stands in a JSON string: quotes, backslashes and control
/// characters are escaped.
pub open spec fn escaped_char(c: char) -> Seq<char> {
    let n = c as int;
    if c == '"' || c == '\\' {
        seq!['\\', c]
    } else if n == 8 {
        seq!['\\', 'b']
    } else if n == 9 {
        seq!['\\', 't']
    } else if n == 10 {
        seq!['\\', 'n']
    } else if n == 12 {
        seq!['\\', 'f']
    } else if n == 13 {
        seq!['\\', 'r']
    } else if n < 32 {
        seq!['\\', 'u', '0', '0', hex_char(n / 16), hex_char(n % 16)]
    } else {
        seq![c]
    }
}

/// The characters of a JSON string between its quotes.
pub open spec fn escaped(s: Seq<char>) -> Seq<char>
    decreases s.len(),
{
    if s.len() == 0 {
        seq![]
    } else {
        escaped(s.drop_last()) + escaped_char(s.last())
    }
}

/// A JSON string.
pub open spec fn quoted(s: Seq<char>) -> Seq<char> {
    seq!['"'] + escaped(s) + seq!['"']
}

/// Writes a JSON string with `serde_json::to_string`. Trusted: for a string it never
/// fails, and gives the characters between quotes, with quotes and backslashes escaped
/// by a backslash, control characters by their short forms or by four hexadecimal
/// digits, and all others as they are.
#[verifier::external_body]
pub(crate) fn quote(s: &str) -> (r: String)
    ensures
        r@ == quoted(s@),
{
    serde_json::to_string(s).expect("a string can always be written")
}

/// A JSON string holds no control character, so it always stays on its line.
pub proof fn quoted_text_stays_on_its_line(s: Seq<char>, i: int)
    requires
        0 <= i < quoted(s).len(),
    ensures
        quoted(s)[i] as int >= 32,
{
    if 0 < i < quoted(s).len() - 1 {
        lemma_escaped(s, i - 1);
    }
}

proof fn lemma_escaped_char(c: char, i: int)
    requires
        0 <= i < escaped_char(c).len(),
    ensures
        escaped_char(c)[i] as int >= 32,
{
    let n = c as int;
    assert(0 <= n);
    if n < 32 {
        assert(0 <= n / 16 < 16 && 0 <= n % 16 < 16);
        assert(hex_char(n / 16) as int >= 32);
        assert(hex_char(n % 16) as int >= 32);
    }
}

proof fn lemma_escaped(s: Seq<char>, i: int)
    requires
        0 <= i < escaped(s).len(),
    ensures
        escaped(s)[i] as int >= 32,
    decreases s.len(),
{
    if s.len() > 0 {
        let rest = escaped(s.drop_last());
        if i < rest.len() {
            lemma_escaped(s.drop_last(), i);
            assert(escaped(s)[i] == rest[i]);
        } else {
            assert(escaped(s)[i] == escaped_char(s.last())[i - rest.len()]);
            lemma_escaped_char(s.last(), i - rest.len());
        }
    }
}

} // verus!
