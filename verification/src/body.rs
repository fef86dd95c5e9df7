//! The bodies of requests: JSON objects.
use vstd::prelude::*;

use crate::json::{
    member_contents, number_measure, open_value, parse_value, parsed_content, value_content,
    Content, Node,
};
use crate::measure::Measure;
use crate::table::{lookup, Table};
use crate::text::{opt_view, trim, trimmed};

verus! {

/// A member of a body. What no request asks for is left out.
#[derive(Debug)]
pub enum Field {
    Bool(bool),
    Number { integer: Option<i64>, measure: Option<Measure> },
    Text(String),
    Other,
}

/// What a member of a body is.
pub enum FieldView {
    Bool(bool),
    Number { integer: Option<i64>, measure: Option<Measure> },
    Text(Seq<char>),
    Other,
}

impl View for Field {
    type V = FieldView;

    open spec fn view(&self) -> FieldView {
        match *self {
            Field::Bool(b) => FieldView::Bool(b),
            Field::Number { integer, measure } => FieldView::Number { integer, measure },
            Field::Text(s) => FieldView::Text(s@),
            Field::Other => FieldView::Other,
        }
    }
}

/// What is kept of a JSON value.
pub open spec fn field_of(content: Content) -> FieldView {
    match content {
        Content::Bool(b) => FieldView::Bool(b),
        Content::Number(n) => FieldView::Number { integer: n.integer, measure: n.measure },
        Content::Text(s) => FieldView::Text(s),
        _ => FieldView::Other,
    }
}

/// What the members of a body are.
pub open spec fn field_views(fields: Map<Seq<char>, Field>) -> Map<Seq<char>, FieldView> {
    fields.map_values(|field: Field| field@)
}

/// The members of a body. One that is no JSON object has none.
pub open spec fn body_fields(content: Option<Content>) -> Map<Seq<char>, FieldView> {
    match content {
        Some(Content::Object(members)) => members.map_values(|c: Content| field_of(c)),
        _ => Map::empty(),
    }
}

fn read_field(value: &serde_json::Value) -> (r: Field)
    ensures
        r@ == field_of(value_content(*value)),
{
    match open_value(value) {
        Node::Bool(b) => Field::Bool(b),
        Node::Number(n) => Field::Number { integer: n.as_i64(), measure: number_measure(n) },
        Node::Text(s) => Field::Text(s.clone()),
        _ => Field::Other,
    }
}

/// Reads the body of a request.
pub fn read_body(text: &str) -> (r: Table<Field>)
    ensures
        field_views(r@) == body_fields(parsed_content(text@)),
{
    let mut fields: Table<Field> = Table::new();
    assert(field_views(fields@) =~= Map::empty());
    let value = match parse_value(text) {
        Ok(value) => value,
        Err(_) => {
            return fields;
        },
    };
    let members = match open_value(&value) {
        Node::Object(members) => members,
        _ => {
            return fields;
        },
    };
    let ghost read = |c: Content| field_of(c);
    let mut i: usize = 0;
    assert(field_views(fields@) =~= member_contents(members@.take(0)).map_values(read));
    while i < members.len()
        invariant
            i <= members@.len(),
            read == (|c: Content| field_of(c)),
            field_views(fields@) == member_contents(members@.take(i as int)).map_values(read),
        decreases members@.len() - i,
    {
        let (name, member) = members[i];
        let field = read_field(member);
        let ghost before = fields@;
        let ghost known = member_contents(members@.take(i as int));
        fields.insert(name.clone(), field);
        proof {
            let content = value_content(*member);
            assert(members@.take(i + 1).drop_last() =~= members@.take(i as int));
            assert(member_contents(members@.take(i + 1)) == known.insert(name@, content));
            assert(field_views(fields@) =~= field_views(before).insert(name@, field@));
            assert(known.insert(name@, content).map_values(read) =~= known.map_values(read).insert(
                name@,
                read(content),
            ));
        }
        i += 1;
    }
    assert(members@.take(i as int) =~= members@);
    fields
}

/// The text of a member, without the space around it, unless nothing is left.
pub open spec fn given_text(fields: Map<Seq<char>, FieldView>, key: Seq<char>) -> Option<Seq<char>> {
    match lookup(fields, key) {
        Some(FieldView::Text(s)) => if trimmed(s).len() > 0 {
            Some(trimmed(s))
        } else {
            None
        },
        _ => None,
    }
}

/// Whether a member is true.
pub open spec fn is_set(fields: Map<Seq<char>, FieldView>, key: Seq<char>) -> bool {
    lookup(fields, key) == Some(FieldView::Bool(true))
}

/// The integer of a member, or zero.
pub open spec fn given_integer(fields: Map<Seq<char>, FieldView>, key: Seq<char>) -> i64 {
    match lookup(fields, key) {
        Some(FieldView::Number { integer: Some(integer), .. }) => integer,
        _ => 0,
    }
}

/// The quantity of a member, or zero.
pub open spec fn given_measure(fields: Map<Seq<char>, FieldView>, key: Seq<char>) -> Measure {
    match lookup(fields, key) {
        Some(FieldView::Number { measure: Some(measure), .. }) => measure,
        _ => Measure { bits: 0 },
    }
}

/// The text of a member, without the space around it.
pub fn non_empty_string(fields: &Table<Field>, key: &str) -> (r: Option<String>)
    ensures
        opt_view(r) == given_text(field_views(fields@), key@),
{
    match fields.get(key) {
        Some(Field::Text(text)) => {
            let text = trim(text.as_str());
            if text.as_str().is_empty() {
                None
            } else {
                Some(text)
            }
        },
        _ => None,
    }
}

/// Whether a member is true.
pub fn flag(fields: &Table<Field>, key: &str) -> (r: bool)
    ensures
        r == is_set(field_views(fields@), key@),
{
    match fields.get(key) {
        Some(Field::Bool(set)) => *set,
        _ => false,
    }
}

/// The integer of a member.
pub fn integer(fields: &Table<Field>, key: &str) -> (r: i64)
    ensures
        r == given_integer(field_views(fields@), key@),
{
    match fields.get(key) {
        Some(Field::Number { integer: Some(integer), .. }) => *integer,
        _ => 0,
    }
}

/// The quantity of a member.
pub fn quantity(fields: &Table<Field>, key: &str) -> (r: Measure)
    ensures
        r == given_measure(field_views(fields@), key@),
{
    match fields.get(key) {
        Some(Field::Number { measure: Some(measure), .. }) => *measure,
        _ => Measure::zero(),
    }
}

/// A member of a body is kept as what it is: a truth value, a number or a text.
pub proof fn members_of_bodies_are_kept(members: Map<Seq<char>, Content>, name: Seq<char>)
    ensures
        ({
            let fields = body_fields(Some(Content::Object(members)));
            &&& fields.contains_key(name) <==> members.contains_key(name)
            &&& members.contains_key(name) ==> match members[name] {
                Content::Bool(b) => fields[name] == FieldView::Bool(b),
                Content::Text(s) => fields[name] == FieldView::Text(s),
                Content::Number(n) => fields[name] == (FieldView::Number {
                    integer: n.integer,
                    measure: n.measure,
                }),
                _ => fields[name] == FieldView::Other,
            }
        }),
        body_fields(None) == Map::<Seq<char>, FieldView>::empty(),
{
}

} // verus!
