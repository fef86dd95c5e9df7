//! The calls that the events of a trace stand for.
use vstd::prelude::*;

use crate::category::CategorySet;
use crate::measure::Measure;
use crate::table::{lookup, Table};
use crate::text::{opt_view, same_text};
use crate::trace::{
    dim_text, leaf_text, leaf_views, trace_dim_to_string, trace_value_to_string, Leaf, LeafView,
    TraceEvent, TraceEventView,
};

verus! {

/// A call that an event stands for.
#[derive(Debug)]
pub struct DeviceEvent {
    pub category: String,
    pub op_name: String,
    pub device_time_us: Measure,
    pub occupancy_pct: Option<Measure>,
    pub blocks_per_sm: Option<Measure>,
    pub warps_per_sm: Option<Measure>,
    pub shared_memory: Option<Measure>,
    pub grid: Option<String>,
    pub block: Option<String>,
    pub start_us: Measure,
    pub device: String,
    pub stream: String,
    pub pid: String,
    pub tid: String,
    pub correlation: String,
    pub external_id: String,
}

/// What a call is.
pub struct EventView {
    pub category: Seq<char>,
    pub op_name: Seq<char>,
    pub device_time_us: Measure,
    pub occupancy_pct: Option<Measure>,
    pub blocks_per_sm: Option<Measure>,
    pub warps_per_sm: Option<Measure>,
    pub shared_memory: Option<Measure>,
    pub grid: Option<Seq<char>>,
    pub block: Option<Seq<char>>,
    pub start_us: Measure,
    pub device: Seq<char>,
    pub stream: Seq<char>,
    pub pid: Seq<char>,
    pub tid: Seq<char>,
    pub correlation: Seq<char>,
    pub external_id: Seq<char>,
}

impl View for DeviceEvent {
    type V = EventView;

    open spec fn view(&self) -> EventView {
        EventView {
            category: self.category@,
            op_name: self.op_name@,
            device_time_us: self.device_time_us,
            occupancy_pct: self.occupancy_pct,
            blocks_per_sm: self.blocks_per_sm,
            warps_per_sm: self.warps_per_sm,
            shared_memory: self.shared_memory,
            grid: opt_view(self.grid),
            block: opt_view(self.block),
            start_us: self.start_us,
            device: self.device@,
            stream: self.stream@,
            pid: self.pid@,
            tid: self.tid@,
            correlation: self.correlation@,
            external_id: self.external_id@,
        }
    }
}

/// The text of a value, or nothing where it is absent.
pub open spec fn text_or_nothing(value: Option<LeafView>) -> Seq<char> {
    match value {
        Some(value) => leaf_text(value),
        None => Seq::empty(),
    }
}

/// An argument of an event.
pub open spec fn argument(args: Option<Map<Seq<char>, LeafView>>, key: Seq<char>) -> Option<LeafView> {
    match args {
        Some(args) => lookup(args, key),
        None => None,
    }
}

/// An argument of an event, or a member of it where there is no such argument.
pub open spec fn argument_or_member(
    args: Option<Map<Seq<char>, LeafView>>,
    object: Map<Seq<char>, LeafView>,
    arg_key: Seq<char>,
    object_key: Seq<char>,
) -> Option<LeafView> {
    match argument(args, arg_key) {
        Some(value) => Some(value),
        None => lookup(object, object_key),
    }
}

/// The quantity of an argument: that of a number, or the one that a text reads as.
pub open spec fn argument_quantity(
    args: Option<Map<Seq<char>, LeafView>>,
    key: Seq<char>,
    readings: Map<Seq<char>, Measure>,
) -> Option<Measure> {
    match argument(args, key) {
        Some(LeafView::Number { measure, .. }) => measure,
        Some(LeafView::Text(text)) => lookup(readings, text),
        _ => None,
    }
}

/// The quantity of the first argument that has one.
pub open spec fn first_quantity(
    args: Option<Map<Seq<char>, LeafView>>,
    keys: Seq<Seq<char>>,
    readings: Map<Seq<char>, Measure>,
) -> Option<Measure>
    decreases keys.len(),
{
    if keys.len() == 0 {
        None
    } else {
        match argument_quantity(args, keys[0], readings) {
            Some(quantity) => Some(quantity),
            None => first_quantity(args, keys.drop_first(), readings),
        }
    }
}

/// The names under which an occupancy is given, the preferred one first.
pub open spec fn occupancy_keys() -> Seq<Seq<char>> {
    seq![
        "est. achieved occupancy %"@,
        "occupancy_pct"@,
        "occupancy"@,
        "achieved_occupancy"@,
    ]
}

/// The extent that an argument stands for.
pub open spec fn argument_dim(
    args: Option<Map<Seq<char>, LeafView>>,
    key: Seq<char>,
) -> Option<Seq<char>> {
    match argument(args, key) {
        Some(value) => dim_text(value),
        None => None,
    }
}

/// The number that a member is.
pub open spec fn member_number(object: Map<Seq<char>, LeafView>, key: Seq<char>) -> Option<Measure> {
    match lookup(object, key) {
        Some(LeafView::Number { measure, .. }) => measure,
        _ => None,
    }
}

/// Whether a value is a given text.
pub open spec fn is_text(value: Option<LeafView>, expected: Seq<char>) -> bool {
    value == Some(LeafView::Text(expected))
}

/// The category of an event.
pub open spec fn category_of(object: Map<Seq<char>, LeafView>) -> Seq<char> {
    text_or_nothing(lookup(object, "cat"@))
}

/// Whether an event is a complete one, with a duration, a start and a name, of
/// one of the categories. Without categories every one will do.
pub open spec fn is_call(
    object: Map<Seq<char>, LeafView>,
    categories: Option<Seq<Seq<char>>>,
) -> bool {
    &&& is_text(lookup(object, "ph"@), "X"@)
    &&& member_number(object, "dur"@) is Some
    &&& member_number(object, "ts"@) is Some
    &&& lookup(object, "name"@) is Some
    &&& categories is Some ==> categories->0.contains(category_of(object))
}

/// The call that an event stands for, given the quantities that texts read as.
pub open spec fn call_of(event: TraceEventView, readings: Map<Seq<char>, Measure>) -> EventView {
    let object = event.members;
    let args = event.args;
    EventView {
        category: category_of(object),
        op_name: text_or_nothing(lookup(object, "name"@)),
        device_time_us: member_number(object, "dur"@)->0,
        occupancy_pct: first_quantity(args, occupancy_keys(), readings),
        blocks_per_sm: argument_quantity(args, "blocks per SM"@, readings),
        warps_per_sm: argument_quantity(args, "warps per SM"@, readings),
        shared_memory: argument_quantity(args, "shared memory"@, readings),
        grid: argument_dim(args, "grid"@),
        block: argument_dim(args, "block"@),
        start_us: member_number(object, "ts"@)->0,
        device: text_or_nothing(argument_or_member(args, object, "device"@, "pid"@)),
        stream: text_or_nothing(argument_or_member(args, object, "stream"@, "tid"@)),
        pid: text_or_nothing(lookup(object, "pid"@)),
        tid: text_or_nothing(lookup(object, "tid"@)),
        correlation: text_or_nothing(argument(args, "correlation"@)),
        external_id: text_or_nothing(argument(args, "External id"@)),
    }
}

/// The call that an event stands for, if it stands for one.
pub open spec fn event_call(
    event: TraceEventView,
    categories: Option<Seq<Seq<char>>>,
    readings: Map<Seq<char>, Measure>,
) -> Option<EventView> {
    if is_call(event.members, categories) {
        Some(call_of(event, readings))
    } else {
        None
    }
}

/// What an optional member is.
pub open spec fn opt_leaf(value: Option<&Leaf>) -> Option<LeafView> {
    match value {
        Some(value) => Some(value@),
        None => None,
    }
}

/// What optional arguments are.
pub open spec fn opt_members(args: Option<&Table<Leaf>>) -> Option<Map<Seq<char>, LeafView>> {
    match args {
        Some(args) => Some(leaf_views(args@)),
        None => None,
    }
}

fn text_of_value(value: Option<&Leaf>) -> (r: String)
    ensures
        r@ == text_or_nothing(opt_leaf(value)),
{
    match trace_value_to_string(value) {
        Some(text) => text,
        None => String::new(),
    }
}

fn arg<'a>(args: Option<&'a Table<Leaf>>, key: &str) -> (r: Option<&'a Leaf>)
    ensures
        opt_leaf(r) == argument(opt_members(args), key@),
{
    match args {
        Some(args) => args.get(key),
        None => None,
    }
}

/// An argument of an event, or a member of it where there is no such argument.
pub fn arg_or<'a>(
    args: Option<&'a Table<Leaf>>,
    object: &'a Table<Leaf>,
    arg_key: &str,
    object_key: &str,
) -> (r: Option<&'a Leaf>)
    ensures
        opt_leaf(r) == argument_or_member(
            opt_members(args),
            leaf_views(object@),
            arg_key@,
            object_key@,
        ),
{
    match arg(args, arg_key) {
        Some(value) => Some(value),
        None => object.get(object_key),
    }
}

/// The quantity of an argument.
pub fn parse_arg_float(
    args: Option<&Table<Leaf>>,
    key: &str,
    readings: &Table<Measure>,
) -> (r: Option<Measure>)
    ensures
        r == argument_quantity(opt_members(args), key@, readings@),
{
    match arg(args, key) {
        Some(Leaf::Number { measure, .. }) => *measure,
        Some(Leaf::Text(text)) => match readings.get(text.as_str()) {
            Some(measure) => Some(*measure),
            None => None,
        },
        _ => None,
    }
}

/// The occupancy that the arguments of an event give.
pub fn parse_occupancy_pct(args: Option<&Table<Leaf>>, readings: &Table<Measure>) -> (r: Option<
    Measure,
>)
    ensures
        r == first_quantity(opt_members(args), occupancy_keys(), readings@),
{
    let keys: [&'static str; 4] = [
        "est. achieved occupancy %",
        "occupancy_pct",
        "occupancy",
        "achieved_occupancy",
    ];
    let mut i: usize = 0;
    assert(occupancy_keys().skip(0) =~= occupancy_keys());
    while i < 4
        invariant
            i <= 4,
            keys@.len() == 4,
            forall|k: int| 0 <= k < 4 ==> (#[trigger] keys@[k])@ == occupancy_keys()[k],
            first_quantity(opt_members(args), occupancy_keys(), readings@) == first_quantity(
                opt_members(args),
                occupancy_keys().skip(i as int),
                readings@,
            ),
        decreases 4 - i,
    {
        let ghost rest = occupancy_keys().skip(i as int);
        assert(rest[0] == keys@[i as int]@);
        assert(rest.drop_first() =~= occupancy_keys().skip(i + 1));
        if let Some(quantity) = parse_arg_float(args, keys[i], readings) {
            return Some(quantity);
        }
        i += 1;
    }
    assert(occupancy_keys().skip(4).len() == 0);
    None
}

fn dim(args: Option<&Table<Leaf>>, key: &str) -> (r: Option<String>)
    ensures
        opt_view(r) == argument_dim(opt_members(args), key@),
{
    match arg(args, key) {
        Some(value) => trace_dim_to_string(value),
        None => None,
    }
}

fn number(object: &Table<Leaf>, key: &str) -> (r: Option<Measure>)
    ensures
        r == member_number(leaf_views(object@), key@),
{
    match object.get(key) {
        Some(Leaf::Number { measure, .. }) => *measure,
        _ => None,
    }
}

/// Whether a category is one of those wanted. Where none are named, all are.
fn allowed(categories: Option<&CategorySet>, category: &str) -> (r: bool)
    ensures
        r == (categories is Some ==> categories->0@.contains(category@)),
{
    match categories {
        Some(categories) => categories.contains(category),
        None => true,
    }
}

/// What the wanted categories are.
pub open spec fn wanted(categories: Option<&CategorySet>) -> Option<Seq<Seq<char>>> {
    match categories {
        Some(categories) => Some(categories@),
        None => None,
    }
}

/// The call that an event stands for, if it stands for one. The quantities that
/// texts read as are given.
pub fn parse_device_event(
    event: &TraceEvent,
    categories: Option<&CategorySet>,
    readings: &Table<Measure>,
) -> (r: Option<DeviceEvent>)
    ensures
        match r {
            Some(call) => event_call(event@, wanted(categories), readings@) == Some(call@),
            None => event_call(event@, wanted(categories), readings@) is None,
        },
{
    let object = &event.members;
    let complete = match object.get("ph") {
        Some(Leaf::Text(text)) => same_text(text.as_str(), "X"),
        _ => false,
    };
    if !complete {
        return None;
    }
    let device_time_us = match number(object, "dur") {
        Some(value) => value,
        None => {
            return None;
        },
    };
    let start_us = match number(object, "ts") {
        Some(value) => value,
        None => {
            return None;
        },
    };
    let name = match object.get("name") {
        Some(value) => value,
        None => {
            return None;
        },
    };
    let category = text_of_value(object.get("cat"));
    if !allowed(categories, category.as_str()) {
        return None;
    }
    let args: Option<&Table<Leaf>> = event.args.as_ref();
    assert(opt_members(args) == event@.args);
    Some(
        DeviceEvent {
            category,
            op_name: text_of_value(Some(name)),
            device_time_us,
            occupancy_pct: parse_occupancy_pct(args, readings),
            blocks_per_sm: parse_arg_float(args, "blocks per SM", readings),
            warps_per_sm: parse_arg_float(args, "warps per SM", readings),
            shared_memory: parse_arg_float(args, "shared memory", readings),
            grid: dim(args, "grid"),
            block: dim(args, "block"),
            start_us,
            device: text_of_value(arg_or(args, object, "device", "pid")),
            stream: text_of_value(arg_or(args, object, "stream", "tid")),
            pid: text_of_value(object.get("pid")),
            tid: text_of_value(object.get("tid")),
            correlation: text_of_value(arg(args, "correlation")),
            external_id: text_of_value(arg(args, "External id")),
        },
    )
}

} // verus!
