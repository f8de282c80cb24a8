//! JSON documents as trees of plain values, and the parser that produces them.

use vstd::prelude::*;

verus! {

/// One `name: value` pair of a JSON object.
#[derive(Debug, PartialEq, Eq)]
pub struct Member {
    pub name: String,
    pub value: Json,
}

/// A JSON document.
#[derive(Debug, PartialEq, Eq)]
pub enum Json {
    Null,
    Bool(bool),
    /// A number, kept as its decimal text.
    Number(String),
    Text(String),
    List(Vec<Json>),
    /// The members in the order in which the parser hands them out.
    Object(Vec<Member>),
}

/// The mathematical value of a [`Json`] document.
pub enum JsonValue {
    Null,
    Bool(bool),
    Number(Seq<char>),
    Text(Seq<char>),
    List(Seq<JsonValue>),
    Object(Seq<Pair>),
}

/// The mathematical value of a [`Member`].
pub struct Pair {
    pub name: Seq<char>,
    pub value: JsonValue,
}

impl View for Json {
    type V = JsonValue;

    open spec fn view(&self) -> JsonValue
        decreases self,
    {
        match self {
            Json::Null => JsonValue::Null,
            Json::Bool(b) => JsonValue::Bool(*b),
            Json::Number(n) => JsonValue::Number(n@),
            Json::Text(s) => JsonValue::Text(s@),
            Json::List(items) => JsonValue::List(
                Seq::new(
                    items@.len(),
                    |i: int|
                        if 0 <= i < items@.len() {
                            items[i]@
                        } else {
                            JsonValue::Null
                        },
                ),
            ),
            Json::Object(members) => JsonValue::Object(
                Seq::new(
                    members@.len(),
                    |i: int|
                        if 0 <= i < members@.len() {
                            Pair { name: members[i].name@, value: members[i].value@ }
                        } else {
                            Pair { name: Seq::empty(), value: JsonValue::Null }
                        },
                ),
            ),
        }
    }
}

/// The members of an object as pairs of name and value.
pub open spec fn member_views(members: Seq<Member>) -> Seq<Pair> {
    members.map_values(|m: Member| Pair { name: m.name@, value: m.value@ })
}

/// The value of the first member of that name.
pub open spec fn lookup(members: Seq<Pair>, name: Seq<char>) -> Option<
    JsonValue,
>
    decreases members.len(),
{
    if members.len() == 0 {
        None
    } else if members.first().name == name {
        Some(members.first().value)
    } else {
        lookup(members.drop_first(), name)
    }
}

impl JsonValue {
    /// The members, where the document is an object.
    pub open spec fn members(self) -> Option<Seq<Pair>> {
        match self {
            JsonValue::Object(members) => Some(members),
            _ => None,
        }
    }

    /// The text, where the document is a string.
    pub open spec fn text(self) -> Option<Seq<char>> {
        match self {
            JsonValue::Text(text) => Some(text),
            _ => None,
        }
    }
}

impl Json {
    /// The members, where the document is an object.
    pub fn members(&self) -> (r: Option<&Vec<Member>>)
        ensures
            match r {
                Some(members) => self@.members() == Some(member_views(members@)),
                None => self@.members() is None,
            },
    {
        match self {
            Json::Object(members) => {
                assert(self@.members()->0 =~= member_views(members@));
                Some(members)
            },
            _ => None,
        }
    }

    /// The text, where the document is a string.
    pub fn text(&self) -> (r: Option<&String>)
        ensures
            match r {
                Some(text) => self@.text() == Some(text@),
                None => self@.text() is None,
            },
    {
        match self {
            Json::Text(text) => Some(text),
            _ => None,
        }
    }
}

/// The value of the first member called `name`.
pub fn find<'a>(members: &'a Vec<Member>, name: &str) -> (r: Option<&'a Json>)
    ensures
        match r {
            Some(value) => lookup(member_views(members@), name@) == Some(value@),
            None => lookup(member_views(members@), name@) is None,
        },
{
    let wanted = String::from_str(name);
    let ghost all = member_views(members@);
    let mut i: usize = 0;
    proof {
        assert(all.skip(0) =~= all);
    }
    while i < members.len()
        invariant
            i <= members.len(),
            wanted@ == name@,
            all == member_views(members@),
            lookup(all, name@) == lookup(all.skip(i as int), name@),
        decreases members.len() - i,
    {
        proof {
            assert(all.skip(i as int).drop_first() =~= all.skip(i + 1));
            assert(all.skip(i as int).first() == Pair {
                name: members@[i as int].name@,
                value: members@[i as int].value@,
            });
        }
        if members[i].name == wanted {
            return Some(&members[i].value);
        }
        i = i + 1;
    }
    None
}

/// `serde_json::Value`. It stays closed here: a value goes from the parser
/// straight into [`lift`].
#[verifier::external_type_specification]
#[verifier::external_body]
pub struct ExValue(serde_json::Value);

/// `serde_json::Error`.
#[verifier::external_type_specification]
#[verifier::external_body]
pub struct ExParseError(serde_json::Error);

/// What `serde_json::from_str` reads out of `text` as a `serde_json::Value`,
/// written as a tree; `None` where it returns an error. Of this function
/// nothing is claimed but that it is one: the same text gives the same tree.
pub uninterp spec fn json_document(text: Seq<char>) -> Option<JsonValue>;

/// The tree that a `serde_json::Value` holds.
pub uninterp spec fn value_tree(value: serde_json::Value) -> JsonValue;

/// Calls `serde_json::from_str` for a `serde_json::Value`. Not proved, but
/// taken from the parser: whether it accepts a text, and the tree of the
/// value that it then returns, depend on the text alone.
#[verifier::external_body]
fn parse_value(text: &str) -> (r: Result<serde_json::Value, serde_json::Error>)
    ensures
        match r {
            Ok(v) => json_document(text@) == Some(value_tree(v)),
            Err(_) => json_document(text@) is None,
        },
{
    serde_json::from_str::<serde_json::Value>(text)
}

/// Moves a `serde_json::Value` into a [`Json`], variant by variant: a number
/// as `serde_json::Number` displays it, the elements of an array in their
/// order, the members of an object in the order in which `serde_json::Map`
/// hands them out. Not proved: that this is the tree of the value. The parser
/// nests its values no deeper than 128 levels, which bounds the recursion.
#[verifier::external_body]
fn lift(value: serde_json::Value) -> (j: Json)
    ensures
        j@ == value_tree(value),
{
    match value {
        serde_json::Value::Null => Json::Null,
        serde_json::Value::Bool(b) => Json::Bool(b),
        serde_json::Value::Number(n) => Json::Number(n.to_string()),
        serde_json::Value::String(s) => Json::Text(s),
        serde_json::Value::Array(a) => Json::List(a.into_iter().map(lift).collect()),
        serde_json::Value::Object(m) => Json::Object(
            m.into_iter().map(|(k, v)| Member { name: k, value: lift(v) }).collect(),
        ),
    }
}

/// Parses `text` as one JSON document.
pub fn parse(text: &str) -> (r: Option<Json>)
    ensures
        match r {
            Some(j) => json_document(text@) == Some(j@),
            None => json_document(text@) is None,
        },
{
    match parse_value(text) {
        Ok(v) => Some(lift(v)),
        Err(_) => None,
    }
}

/// Whether `s` is a JSON document.
pub fn check_if_json(s: &str) -> (r: bool)
    ensures
        r == (json_document(s@) is Some),
{
    parse_value(s).is_ok()
}

} // verus!
