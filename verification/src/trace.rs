//! The events of a trace: what is read of the JSON values that they are.
use vstd::prelude::*;

use crate::json::{
    item_contents, member_contents, number_measure, number_text, open_value, render, rendered,
    value_content, Content, Node,
};
use crate::measure::Measure;
use crate::table::{lookup, Table};
use crate::text::{join, join_texts, same_text, views};

verus! {

/// A member of an event, or an argument of it: what it is written as, the texts
/// of the items of an array, and the quantity of a number.
#[derive(Debug)]
pub enum Leaf {
    Null,
    Bool(bool),
    Number { text: String, measure: Option<Measure> },
    Text(String),
    Array { items: Vec<String>, text: String },
    Object { text: String },
}

/// What a member of an event is.
pub enum LeafView {
    Null,
    Bool(bool),
    Number { text: Seq<char>, measure: Option<Measure> },
    Text(Seq<char>),
    Array { items: Seq<Seq<char>>, text: Seq<char> },
    Object { text: Seq<char> },
}

impl View for Leaf {
    type V = LeafView;

    open spec fn view(&self) -> LeafView {
        match *self {
            Leaf::Null => LeafView::Null,
            Leaf::Bool(b) => LeafView::Bool(b),
            Leaf::Number { text, measure } => LeafView::Number { text: text@, measure },
            Leaf::Text(s) => LeafView::Text(s@),
            Leaf::Array { items, text } => LeafView::Array { items: views(items@), text: text@ },
            Leaf::Object { text } => LeafView::Object { text: text@ },
        }
    }
}

/// What members are.
pub open spec fn leaf_views(leaves: Map<Seq<char>, Leaf>) -> Map<Seq<char>, LeafView> {
    leaves.map_values(|leaf: Leaf| leaf@)
}

/// An event of a trace: its arguments, where they are an object, and its other
/// members.
#[derive(Debug)]
pub struct TraceEvent {
    pub members: Table<Leaf>,
    pub args: Option<Table<Leaf>>,
}

/// What an event of a trace is.
pub struct TraceEventView {
    pub members: Map<Seq<char>, LeafView>,
    pub args: Option<Map<Seq<char>, LeafView>>,
}

/// What arguments are.
pub open spec fn args_view(args: Option<Table<Leaf>>) -> Option<Map<Seq<char>, LeafView>> {
    match args {
        Some(args) => Some(leaf_views(args@)),
        None => None,
    }
}

impl View for TraceEvent {
    type V = TraceEventView;

    open spec fn view(&self) -> TraceEventView {
        TraceEventView { members: leaf_views(self.members@), args: args_view(self.args) }
    }
}

/// The text of a truth value.
pub open spec fn bool_text(b: bool) -> Seq<char> {
    if b {
        "true"@
    } else {
        "false"@
    }
}

/// The text of a JSON value: that of a text itself, nothing for null, and the way
/// it is written for all others.
pub open spec fn content_text(content: Content) -> Seq<char> {
    match content {
        Content::Null => Seq::empty(),
        Content::Bool(b) => bool_text(b),
        Content::Number(n) => n.text,
        Content::Text(s) => s,
        _ => rendered(content),
    }
}

/// What is read of a JSON value.
pub open spec fn leaf_of(content: Content) -> LeafView {
    match content {
        Content::Null => LeafView::Null,
        Content::Bool(b) => LeafView::Bool(b),
        Content::Number(n) => LeafView::Number { text: n.text, measure: n.measure },
        Content::Text(s) => LeafView::Text(s),
        Content::Array(items) => LeafView::Array {
            items: items.map_values(|c: Content| content_text(c)),
            text: rendered(content),
        },
        Content::Object(_) => LeafView::Object { text: rendered(content) },
    }
}

/// What is read of the members of an object.
pub open spec fn leaves_of(members: Map<Seq<char>, Content>) -> Map<Seq<char>, LeafView> {
    members.map_values(|c: Content| leaf_of(c))
}

/// The event that a JSON value is, if it is an object.
pub open spec fn event_of(content: Content) -> Option<TraceEventView> {
    match content {
        Content::Object(members) => Some(
            TraceEventView {
                members: leaves_of(members.remove("args"@)),
                args: match lookup(members, "args"@) {
                    Some(Content::Object(args)) => Some(leaves_of(args)),
                    _ => None,
                },
            },
        ),
        _ => None,
    }
}

/// The text of a member of an event.
pub open spec fn leaf_text(leaf: LeafView) -> Seq<char> {
    match leaf {
        LeafView::Null => Seq::empty(),
        LeafView::Bool(b) => bool_text(b),
        LeafView::Number { text, .. } => text,
        LeafView::Text(s) => s,
        LeafView::Array { text, .. } => text,
        LeafView::Object { text } => text,
    }
}

/// What is read of a value has the text of the value.
pub proof fn reading_keeps_the_text(content: Content)
    ensures
        leaf_text(leaf_of(content)) == content_text(content),
{
}

/// The extent that a member stands for: the texts of an array joined by `x`, or
/// the text of any other value, unless it is empty.
pub open spec fn dim_text(leaf: LeafView) -> Option<Seq<char>> {
    match leaf {
        LeafView::Array { items, .. } => Some(join_texts(items, "x"@)),
        _ => if leaf_text(leaf).len() == 0 {
            None
        } else {
            Some(leaf_text(leaf))
        },
    }
}

fn write_bool(b: bool) -> (r: String)
    ensures
        r@ == bool_text(b),
{
    if b {
        "true".to_owned()
    } else {
        "false".to_owned()
    }
}

fn text_of_json(value: &serde_json::Value) -> (r: String)
    ensures
        r@ == content_text(value_content(*value)),
{
    match open_value(value) {
        Node::Null => String::new(),
        Node::Bool(b) => write_bool(b),
        Node::Number(n) => number_text(n),
        Node::Text(s) => s.clone(),
        _ => render(value),
    }
}

fn read_items(items: &Vec<serde_json::Value>) -> (r: Vec<String>)
    ensures
        views(r@) == item_contents(items@).map_values(|c: Content| content_text(c)),
{
    let mut texts: Vec<String> = Vec::new();
    let mut i: usize = 0;
    while i < items.len()
        invariant
            i <= items@.len(),
            texts@.len() == i,
            forall|k: int|
                0 <= k < i ==> (#[trigger] texts@[k])@ == content_text(value_content(items@[k])),
        decreases items@.len() - i,
    {
        texts.push(text_of_json(&items[i]));
        i += 1;
    }
    assert(views(texts@) =~= item_contents(items@).map_values(|c: Content| content_text(c)));
    texts
}

fn read_leaf(value: &serde_json::Value) -> (r: Leaf)
    ensures
        r@ == leaf_of(value_content(*value)),
{
    match open_value(value) {
        Node::Null => Leaf::Null,
        Node::Bool(b) => Leaf::Bool(b),
        Node::Number(n) => Leaf::Number { text: number_text(n), measure: number_measure(n) },
        Node::Text(s) => Leaf::Text(s.clone()),
        Node::Array(items) => Leaf::Array { items: read_items(items), text: render(value) },
        Node::Object(_) => Leaf::Object { text: render(value) },
    }
}

/// The members of an object that were read up to some place, without the one
/// that is named.
spec fn leaves_up_to(
    members: Seq<(&String, &serde_json::Value)>,
    without: Option<Seq<char>>,
) -> Map<Seq<char>, LeafView> {
    let all = member_contents(members);
    leaves_of(
        match without {
            Some(name) => all.remove(name),
            None => all,
        },
    )
}

fn read_members(
    members: &Vec<(&String, &serde_json::Value)>,
    without: Option<&'static str>,
) -> (r: Table<Leaf>)
    ensures
        leaf_views(r@) == leaves_up_to(
            members@,
            match without {
                Some(name) => Some(name@),
                None => None,
            },
        ),
{
    let ghost left_out: Option<Seq<char>> = match without {
        Some(name) => Some(name@),
        None => None,
    };
    let mut leaves: Table<Leaf> = Table::new();
    let mut i: usize = 0;
    assert(leaf_views(leaves@) =~= leaves_up_to(members@.take(0), left_out));
    while i < members.len()
        invariant
            i <= members@.len(),
            left_out == (match without {
                Some(name) => Some(name@),
                None => None,
            }),
            leaf_views(leaves@) == leaves_up_to(members@.take(i as int), left_out),
        decreases members@.len() - i,
    {
        let (name, value) = members[i];
        let ghost before = leaves@;
        let ghost known = member_contents(members@.take(i as int));
        let ghost content = value_content(*value);
        proof {
            assert(members@.take(i + 1).drop_last() =~= members@.take(i as int));
            assert(member_contents(members@.take(i + 1)) == known.insert(name@, content));
        }
        let skip = match without {
            Some(other) => same_text(name.as_str(), other),
            None => false,
        };
        if skip {
            assert(known.insert(name@, content).remove(name@) =~= known.remove(name@));
        } else {
            let leaf = read_leaf(value);
            leaves.insert(name.clone(), leaf);
            proof {
                assert(leaf_views(leaves@) =~= leaf_views(before).insert(name@, leaf@));
                if let Some(other) = left_out {
                    assert(known.insert(name@, content).remove(other) =~= known.remove(
                        other,
                    ).insert(name@, content));
                    assert(leaves_of(known.remove(other).insert(name@, content)) =~= leaves_of(
                        known.remove(other),
                    ).insert(name@, leaf_of(content)));
                } else {
                    assert(leaves_of(known.insert(name@, content)) =~= leaves_of(known).insert(
                        name@,
                        leaf_of(content),
                    ));
                }
            }
        }
        i += 1;
    }
    assert(members@.take(i as int) =~= members@);
    leaves
}

fn find_member<'a>(
    members: &Vec<(&'a String, &'a serde_json::Value)>,
    name: &str,
) -> (r: Option<&'a serde_json::Value>)
    ensures
        match r {
            Some(value) => lookup(member_contents(members@), name@) == Some(value_content(*value)),
            None => lookup(member_contents(members@), name@) is None,
        },
{
    let mut found: Option<&'a serde_json::Value> = None;
    let mut i: usize = 0;
    while i < members.len()
        invariant
            i <= members@.len(),
            match found {
                Some(value) => lookup(member_contents(members@.take(i as int)), name@) == Some(
                    value_content(*value),
                ),
                None => lookup(member_contents(members@.take(i as int)), name@) is None,
            },
        decreases members@.len() - i,
    {
        let (other, value) = members[i];
        assert(members@.take(i + 1).drop_last() =~= members@.take(i as int));
        if same_text(other.as_str(), name) {
            found = Some(value);
        }
        i += 1;
    }
    assert(members@.take(i as int) =~= members@);
    found
}

/// Reads an event of a trace, if it is one.
pub fn read_event(value: &serde_json::Value) -> (r: Option<TraceEvent>)
    ensures
        match r {
            Some(event) => event_of(value_content(*value)) == Some(event@),
            None => event_of(value_content(*value)) is None,
        },
{
    let members = match open_value(value) {
        Node::Object(members) => members,
        _ => {
            return None;
        },
    };
    let args: Option<Table<Leaf>> = match find_member(&members, "args") {
        Some(args) => match open_value(args) {
            Node::Object(args) => Some(read_members(&args, None)),
            _ => None,
        },
        None => None,
    };
    Some(TraceEvent { members: read_members(&members, Some("args")), args })
}

/// The text of a member that may be absent.
pub fn trace_value_to_string(value: Option<&Leaf>) -> (r: Option<String>)
    ensures
        match (r, value) {
            (Some(text), Some(value)) => text@ == leaf_text(value@),
            (None, None) => true,
            _ => false,
        },
{
    match value {
        None => None,
        Some(Leaf::Null) => Some(String::new()),
        Some(Leaf::Bool(b)) => Some(write_bool(*b)),
        Some(Leaf::Number { text, .. }) => Some(text.clone()),
        Some(Leaf::Text(text)) => Some(text.clone()),
        Some(Leaf::Array { text, .. }) => Some(text.clone()),
        Some(Leaf::Object { text }) => Some(text.clone()),
    }
}

/// The extent that a member stands for.
pub fn trace_dim_to_string(value: &Leaf) -> (r: Option<String>)
    ensures
        match r {
            Some(text) => dim_text(value@) == Some(text@),
            None => dim_text(value@) is None,
        },
{
    if let Leaf::Array { items, .. } = value {
        return Some(join(items, "x"));
    }
    match trace_value_to_string(Some(value)) {
        Some(text) => if text.as_str().is_empty() {
            None
        } else {
            Some(text)
        },
        None => None,
    }
}

/// An object of a trace is an event with its members. Its arguments are those that it
/// has under their name, where they are an object, and are no member.
pub proof fn objects_are_events(members: Map<Seq<char>, Content>, name: Seq<char>)
    ensures
        event_of(Content::Object(members)) is Some,
        ({
            let event = event_of(Content::Object(members))->0;
            &&& event.members.contains_key(name) <==> members.contains_key(name) && name
                != "args"@
            &&& event.members.contains_key(name) ==> leaf_text(event.members[name])
                == content_text(members[name])
            &&& event.args is Some <==> members.contains_key("args"@)
                && members["args"@] is Object
            &&& event.args is Some ==> {
                let args = members["args"@]->Object_0;
                &&& event.args->0.contains_key(name) <==> args.contains_key(name)
                &&& args.contains_key(name) ==> leaf_text(event.args->0[name]) == content_text(
                    args[name],
                )
            }
        }),
{
}

/// What is read of a value is the value: a text, a number with what it is written as,
/// a truth value, nothing, or the items of an array.
pub proof fn values_are_read_as_they_are(content: Content)
    ensures
        match content {
            Content::Null => leaf_of(content) == LeafView::Null,
            Content::Bool(b) => leaf_of(content) == LeafView::Bool(b),
            Content::Number(n) => leaf_of(content) == (LeafView::Number {
                text: n.text,
                measure: n.measure,
            }),
            Content::Text(s) => leaf_of(content) == LeafView::Text(s),
            Content::Array(items) => {
                &&& leaf_of(content) is Array
                &&& leaf_of(content)->items.len() == items.len()
                &&& forall|i: int|
                    0 <= i < items.len() ==> (#[trigger] leaf_of(content)->items[i]) == (
                    match items[i] {
                        Content::Null => Seq::empty(),
                        Content::Bool(true) => "true"@,
                        Content::Bool(false) => "false"@,
                        Content::Number(n) => n.text,
                        Content::Text(s) => s,
                        other => rendered(other),
                    })
            },
            Content::Object(_) => leaf_of(content) == (LeafView::Object {
                text: rendered(content),
            }),
        },
{
}

} // verus!
