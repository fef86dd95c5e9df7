//! JSON values of `serde_json`, and what they hold.
use vstd::prelude::*;

use crate::measure::Measure;

verus! {

/// What a JSON number is: the text it is written as, its value where that is an
/// integer of 64 bits, and its value as a quantity.
pub struct NumberContent {
    pub text: Seq<char>,
    pub integer: Option<i64>,
    pub measure: Option<Measure>,
}

/// What a JSON value is.
pub enum Content {
    Null,
    Bool(bool),
    Number(NumberContent),
    Text(Seq<char>),
    Array(Seq<Content>),
    Object(Map<Seq<char>, Content>),
}

/// A value of `serde_json`.
#[verifier::external_type_specification]
#[verifier::external_body]
pub struct ExValue(serde_json::Value);

/// A number of `serde_json`.
#[verifier::external_type_specification]
#[verifier::external_body]
pub struct ExNumber(serde_json::Number);

/// What `serde_json` says of a text that is no JSON.
#[verifier::external_type_specification]
#[verifier::external_body]
pub struct ExError(serde_json::Error);

/// The value that `serde_json::from_str` reads from a text, unless it refuses it.
pub uninterp spec fn parsed_content(text: Seq<char>) -> Option<Content>;

/// What a value of `serde_json` holds.
pub uninterp spec fn value_content(value: serde_json::Value) -> Content;

/// What a number of `serde_json` holds.
pub uninterp spec fn number_content(number: serde_json::Number) -> NumberContent;

/// The text that `serde_json` writes of a value.
pub uninterp spec fn rendered(content: Content) -> Seq<char>;

/// `serde_json::from_str`: whether it accepts a text, and what the value holds
/// that it reads, depends on the text alone.
#[verifier::external_body]
pub(crate) fn parse_value(text: &str) -> (r: Result<serde_json::Value, serde_json::Error>)
    ensures
        match r {
            Ok(value) => parsed_content(text@) == Some(value_content(value)),
            Err(_) => parsed_content(text@) is None,
        },
{
    serde_json::from_str(text)
}

/// `serde_json::Value`'s `to_string`: the text that it writes depends on what the
/// value holds alone.
#[verifier::external_body]
pub(crate) fn render(value: &serde_json::Value) -> (r: String)
    ensures
        r@ == rendered(value_content(*value)),
{
    value.to_string()
}

/// `serde_json::Number`'s `to_string`: the text that a number is written as.
#[verifier::external_body]
pub(crate) fn number_text(number: &serde_json::Number) -> (r: String)
    ensures
        r@ == number_content(*number).text,
{
    number.to_string()
}

/// `serde_json::Number::as_i64`: the value of a number where that is an integer
/// of 64 bits.
pub assume_specification[ serde_json::Number::as_i64 ](n: &serde_json::Number) -> (r: Option<i64>)
    ensures
        r == number_content(*n).integer,
;

/// `serde_json::Number::as_f64`, by its bits: the value of a number as a
/// quantity.
#[verifier::external_body]
pub(crate) fn number_measure(number: &serde_json::Number) -> (r: Option<Measure>)
    ensures
        r == number_content(*number).measure,
{
    number.as_f64().map(|value| Measure { bits: value.to_bits() })
}

/// The outermost layer of a value.
pub enum Node<'a> {
    Null,
    Bool(bool),
    Number(&'a serde_json::Number),
    Text(&'a String),
    Array(&'a Vec<serde_json::Value>),
    Object(Vec<(&'a String, &'a serde_json::Value)>),
}

/// What the items of an array are.
pub open spec fn item_contents(items: Seq<serde_json::Value>) -> Seq<Content> {
    items.map_values(|v: serde_json::Value| value_content(v))
}

/// What the members of an object are.
pub open spec fn member_contents(members: Seq<(&String, &serde_json::Value)>) -> Map<
    Seq<char>,
    Content,
>
    decreases members.len(),
{
    if members.len() == 0 {
        Map::empty()
    } else {
        member_contents(members.drop_last()).insert(
            members.last().0@,
            value_content(*members.last().1),
        )
    }
}

/// Whether a node is the outermost layer of a value.
pub open spec fn is_layer(node: Node, content: Content) -> bool {
    match node {
        Node::Null => content is Null,
        Node::Bool(b) => content == Content::Bool(b),
        Node::Number(n) => content == Content::Number(number_content(*n)),
        Node::Text(s) => content == Content::Text(s@),
        Node::Array(items) => content == Content::Array(item_contents(items@)),
        Node::Object(members) => content == Content::Object(member_contents(members@)),
    }
}

/// The variants of `serde_json::Value`: each holds what the value holds. An object
/// has its members, each name once.
#[verifier::external_body]
pub(crate) fn open_value<'a>(value: &'a serde_json::Value) -> (r: Node<'a>)
    ensures
        is_layer(r, value_content(*value)),
{
    match value {
        serde_json::Value::Null => Node::Null,
        serde_json::Value::Bool(b) => Node::Bool(*b),
        serde_json::Value::Number(n) => Node::Number(n),
        serde_json::Value::String(s) => Node::Text(s),
        serde_json::Value::Array(items) => Node::Array(items),
        serde_json::Value::Object(members) => Node::Object(members.iter().collect()),
    }
}

} // verus!
