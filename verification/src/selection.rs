//! Which calls an import of a trace takes, and what it says of them.
use vstd::prelude::*;

use crate::batching::{flushing_takes_nothing_away, is_import, leads_over, leads_to, TraceStep};
use crate::category::{names_category, regex_compiles, regex_matches, FilterError};
use crate::event::{call_of, event_call, occupancy_keys, EventView};
use crate::importer::{
    categories_of, is_choice, is_compiled, is_filters_answer, names_none, Accepted, EventTimes,
    ImportTraceOptions, TraceFilters, TraceImport,
};
use crate::measure::{Measure, INFINITE, SIGN};
use crate::record::{record_views, RecordView};
use crate::text::{join_texts, opt_view};
use crate::trace::{LeafView, TraceEventView};

verus! {

/// Whether filters are the ones that options ask for.
pub open spec fn are_filters_of(filters: TraceFilters, options: ImportTraceOptions) -> bool {
    &&& is_choice(filters.categories, options.categories@, options.all_categories)
    &&& is_compiled(filters.include_name, opt_view(options.include_name))
    &&& is_compiled(filters.exclude_name, opt_view(options.exclude_name))
}

/// Whether a name is one to be taken: it matches the pattern of the names to be
/// taken, and does not match that of the names to be left out. A pattern that is
/// missing or empty asks for nothing.
pub open spec fn is_name_asked_for(name: Seq<char>, options: ImportTraceOptions) -> bool {
    &&& options.include_name is Some && options.include_name->0@.len() > 0 ==> regex_matches(
        options.include_name->0@,
        name,
    )
    &&& options.exclude_name is Some && options.exclude_name->0@.len() > 0 ==> !regex_matches(
        options.exclude_name->0@,
        name,
    )
}

/// A call is taken if and only if it is not shorter than asked for, and its name is
/// one to be taken: it matches the pattern of the names to be taken, where there is
/// one, and not that of the names to be left out, where there is one.
pub proof fn calls_are_taken_by_name_and_length(
    options: ImportTraceOptions,
    before: TraceImport,
    after: TraceImport,
    event: EventView,
    times: EventTimes,
    accepted: Option<Accepted>,
)
    requires
        are_filters_of(before.filters, options),
        before.min_device_time_us == options.min_device_time_us,
        after.has_judged(before, event, times, accepted),
    ensures
        accepted is Some <==> is_name_asked_for(event.op_name, options)
            && !event.device_time_us.below(options.min_device_time_us),
        accepted is Some ==> after.taken().len() == before.taken().len() + 1
            && after.taken().last().op_name == event.op_name,
        accepted is None ==> after.taken() == before.taken(),
{
    if accepted is Some {
        assert(after.taken().last() == record_views(after.batch@).last());
    }
}

/// What a value of an event says: the text itself, nothing where it is null, and the
/// way that it is written otherwise.
pub open spec fn said(leaf: LeafView) -> Seq<char> {
    match leaf {
        LeafView::Null => Seq::empty(),
        LeafView::Bool(true) => "true"@,
        LeafView::Bool(false) => "false"@,
        LeafView::Number { text, .. } => text,
        LeafView::Text(text) => text,
        LeafView::Array { text, .. } => text,
        LeafView::Object { text } => text,
    }
}

/// What a value that may be missing says.
pub open spec fn said_if_any(values: Map<Seq<char>, LeafView>, name: Seq<char>) -> Seq<char> {
    if values.contains_key(name) {
        said(values[name])
    } else {
        Seq::empty()
    }
}

/// The arguments of an event.
pub open spec fn arguments(event: TraceEventView) -> Map<Seq<char>, LeafView> {
    match event.args {
        Some(args) => args,
        None => Map::empty(),
    }
}

/// What an argument of an event says, or a member of it where there is no such
/// argument.
pub open spec fn said_of(event: TraceEventView, argument: Seq<char>, member: Seq<char>) -> Seq<
    char,
> {
    if arguments(event).contains_key(argument) {
        said(arguments(event)[argument])
    } else {
        said_if_any(event.members, member)
    }
}

/// The quantity that an argument of an event is, or that its text reads as.
pub open spec fn amount_of(
    event: TraceEventView,
    argument: Seq<char>,
    readings: Map<Seq<char>, Measure>,
) -> Option<Measure> {
    if !arguments(event).contains_key(argument) {
        None
    } else {
        match arguments(event)[argument] {
            LeafView::Number { measure, .. } => measure,
            LeafView::Text(text) => if readings.contains_key(text) {
                Some(readings[text])
            } else {
                None
            },
            _ => None,
        }
    }
}

/// The extent that an argument of an event is: the items of an array with an `x`
/// between them, or what any other value says, unless that is nothing.
pub open spec fn extent_of(event: TraceEventView, argument: Seq<char>) -> Option<Seq<char>> {
    if !arguments(event).contains_key(argument) {
        None
    } else {
        match arguments(event)[argument] {
            LeafView::Array { items, .. } => Some(join_texts(items, seq!['x'])),
            leaf => if said(leaf).len() > 0 {
                Some(said(leaf))
            } else {
                None
            },
        }
    }
}

/// Whether a member of an event is a number.
pub open spec fn has_quantity(event: TraceEventView, member: Seq<char>) -> bool {
    &&& event.members.contains_key(member)
    &&& event.members[member] is Number
    &&& event.members[member]->measure is Some
}

/// The number that a member of an event is.
pub open spec fn quantity_of(event: TraceEventView, member: Seq<char>) -> Measure {
    event.members[member]->measure->0
}

/// Whether a value of a trace stands for a call: it is a complete event with a
/// duration, a start and a name, of a category that is named, where not all are
/// wanted.
pub open spec fn is_call_event(event: Option<TraceEventView>, options: ImportTraceOptions) -> bool {
    &&& event is Some
    &&& event->0.members.contains_key("ph"@)
    &&& event->0.members["ph"@] == LeafView::Text("X"@)
    &&& has_quantity(event->0, "dur"@)
    &&& has_quantity(event->0, "ts"@)
    &&& event->0.members.contains_key("name"@)
    &&& options.all_categories || names_category(
        options.categories@,
        said_if_any(event->0.members, "cat"@),
    )
}

/// Whether a value of a trace stands for a call that is asked for: its name is one to
/// be taken, and it is not shorter than asked for.
pub open spec fn is_asked_for(step: TraceStep, options: ImportTraceOptions) -> bool {
    &&& is_call_event(step.event, options)
    &&& is_name_asked_for(said(step.event->0.members["name"@]), options)
    &&& !quantity_of(step.event->0, "dur"@).below(options.min_device_time_us)
}

/// Whether a call says of its event what the event says of itself.
pub open spec fn tells_of(
    call: EventView,
    event: TraceEventView,
    readings: Map<Seq<char>, Measure>,
) -> bool {
    &&& call.category == said_if_any(event.members, "cat"@)
    &&& call.op_name == said(event.members["name"@])
    &&& call.device_time_us == quantity_of(event, "dur"@)
    &&& call.start_us == quantity_of(event, "ts"@)
    &&& call.pid == said_if_any(event.members, "pid"@)
    &&& call.tid == said_if_any(event.members, "tid"@)
    &&& call.device == said_of(event, "device"@, "pid"@)
    &&& call.stream == said_of(event, "stream"@, "tid"@)
    &&& call.correlation == said_if_any(arguments(event), "correlation"@)
    &&& call.external_id == said_if_any(arguments(event), "External id"@)
    &&& call.blocks_per_sm == amount_of(event, "blocks per SM"@, readings)
    &&& call.warps_per_sm == amount_of(event, "warps per SM"@, readings)
    &&& call.shared_memory == amount_of(event, "shared memory"@, readings)
    &&& call.grid == extent_of(event, "grid"@)
    &&& call.block == extent_of(event, "block"@)
    &&& call.occupancy_pct == (if amount_of(
        event,
        "est. achieved occupancy %"@,
        readings,
    ) is Some {
        amount_of(event, "est. achieved occupancy %"@, readings)
    } else if amount_of(event, "occupancy_pct"@, readings) is Some {
        amount_of(event, "occupancy_pct"@, readings)
    } else if amount_of(event, "occupancy"@, readings) is Some {
        amount_of(event, "occupancy"@, readings)
    } else {
        amount_of(event, "achieved_occupancy"@, readings)
    })
}

proof fn lemma_occupancy(event: TraceEventView, readings: Map<Seq<char>, Measure>)
    ensures
        ({
            let occupancy = crate::event::first_quantity(event.args, occupancy_keys(), readings);
            occupancy == (if amount_of(event, "est. achieved occupancy %"@, readings) is Some {
                amount_of(event, "est. achieved occupancy %"@, readings)
            } else if amount_of(event, "occupancy_pct"@, readings) is Some {
                amount_of(event, "occupancy_pct"@, readings)
            } else if amount_of(event, "occupancy"@, readings) is Some {
                amount_of(event, "occupancy"@, readings)
            } else {
                amount_of(event, "achieved_occupancy"@, readings)
            })
        }),
{
    reveal_with_fuel(crate::event::first_quantity, 5);
    let keys = occupancy_keys();
    assert(keys.drop_first() =~= seq!["occupancy_pct"@, "occupancy"@, "achieved_occupancy"@]);
    assert(keys.drop_first().drop_first() =~= seq!["occupancy"@, "achieved_occupancy"@]);
    assert(keys.drop_first().drop_first().drop_first() =~= seq!["achieved_occupancy"@]);
    assert(keys.drop_first().drop_first().drop_first().drop_first() =~= Seq::<Seq<char>>::empty());
}

/// An event of a trace stands for a call if and only if it is a complete one with a
/// duration, a start and a name, of a category that is named, and the call says of it
/// what the event says of itself.
pub proof fn calls_tell_of_their_events(
    event: TraceEventView,
    options: ImportTraceOptions,
    filters: TraceFilters,
    readings: Map<Seq<char>, Measure>,
)
    requires
        are_filters_of(filters, options),
    ensures
        event_call(event, categories_of(filters), readings) is Some <==> is_call_event(
            Some(event),
            options,
        ),
        is_call_event(Some(event), options) ==> tells_of(
            event_call(event, categories_of(filters), readings)->0,
            event,
            readings,
        ),
{
    reveal_strlit("x");
    assert("x"@ =~= seq!['x']);
    lemma_occupancy(event, readings);
    if event.args is None {
        assert(arguments(event) =~= Map::<Seq<char>, LeafView>::empty());
    }
    let category = said_if_any(event.members, "cat"@);
    assert(crate::event::category_of(event.members) =~= category);
    if let Some(set) = filters.categories {
        assert(set@.contains(category) <==> names_category(options.categories@, category));
    }
    if is_call_event(Some(event), options) {
        let call = call_of(event, readings);
        assert(call.pid =~= said_if_any(event.members, "pid"@));
        assert(call.tid =~= said_if_any(event.members, "tid"@));
        assert(call.device =~= said_of(event, "device"@, "pid"@));
        assert(call.stream =~= said_of(event, "stream"@, "tid"@));
        assert(call.correlation =~= said_if_any(arguments(event), "correlation"@));
        assert(call.external_id =~= said_if_any(arguments(event), "External id"@));
    }
}

/// The places of the values of a trace that stand for calls that are asked for, among
/// the first of them.
pub open spec fn asked_at(
    steps: Seq<TraceStep>,
    options: ImportTraceOptions,
    n: nat,
) -> Seq<int>
    decreases n,
{
    if n == 0 {
        Seq::empty()
    } else if is_asked_for(steps[n - 1], options) {
        asked_at(steps, options, (n - 1) as nat).push(n - 1)
    } else {
        asked_at(steps, options, (n - 1) as nat)
    }
}

/// Whether a value of a trace stands for a call on a stream of a device, be it asked
/// for or not.
pub open spec fn runs_on(
    step: TraceStep,
    options: ImportTraceOptions,
    device: Seq<char>,
    stream: Seq<char>,
) -> bool {
    &&& is_call_event(step.event, options)
    &&& said_of(step.event->0, "device"@, "pid"@) == device
    &&& said_of(step.event->0, "stream"@, "tid"@) == stream
}

/// Whether one of the first values of a trace stands for a call on a stream.
pub open spec fn was_busy(
    steps: Seq<TraceStep>,
    options: ImportTraceOptions,
    n: int,
    device: Seq<char>,
    stream: Seq<char>,
) -> bool {
    exists|j: int| 0 <= j < n && #[trigger] runs_on(steps[j], options, device, stream)
}

/// Whether a stream was last busy at some time, after some values of a trace: no call
/// on it ended later, and one ended then, unless none ended at all.
pub open spec fn was_last_busy(
    steps: Seq<TraceStep>,
    options: ImportTraceOptions,
    n: int,
    device: Seq<char>,
    stream: Seq<char>,
    end_us: Measure,
) -> bool {
    &&& !end_us.is_nan()
    &&& forall|j: int|
        0 <= j < n && #[trigger] runs_on(steps[j], options, device, stream) ==> !end_us.below(
            steps[j].times.end_us,
        )
    &&& end_us.bits == SIGN + INFINITE || exists|j: int|
        0 <= j < n && #[trigger] runs_on(steps[j], options, device, stream)
            && steps[j].times.end_us == end_us
}

/// Whether a call was free before for as long as the value of a trace at some place
/// says: for no time where it is the first one on its stream, and else for the time
/// since the stream was last busy, unless that is less than none.
pub open spec fn was_free_for(
    free_time_us: Measure,
    steps: Seq<TraceStep>,
    options: ImportTraceOptions,
    i: int,
) -> bool {
    let event = steps[i].event->0;
    let gap = steps[i].times.gap_us;
    let busy = was_busy(
        steps,
        options,
        i,
        said_of(event, "device"@, "pid"@),
        said_of(event, "stream"@, "tid"@),
    );
    if busy && !gap.is_nan() && gap.rank() >= 0 {
        free_time_us == gap
    } else {
        free_time_us == (Measure { bits: 0 })
    }
}

/// Whether a call that is written is the one that a value of a trace stands for.
pub open spec fn is_record_of(
    record: RecordView,
    steps: Seq<TraceStep>,
    options: ImportTraceOptions,
    i: int,
) -> bool {
    let event = steps[i].event->0;
    let times = steps[i].times;
    &&& tells_of(
        EventView {
            category: record.category,
            op_name: record.op_name,
            device_time_us: record.device_time_us,
            occupancy_pct: record.occupancy_pct,
            blocks_per_sm: record.blocks_per_sm,
            warps_per_sm: record.warps_per_sm,
            shared_memory: record.shared_memory,
            grid: record.grid,
            block: record.block,
            start_us: record.start_ts_us->0,
            device: record.device,
            stream: record.stream,
            pid: record.pid,
            tid: record.tid,
            correlation: record.correlation,
            external_id: record.external_id,
        },
        event,
        steps[i].readings,
    )
    &&& record.start_ts_us is Some
    &&& record.end_ts_us == Some(times.end_us)
    &&& record.total_time_us == times.total_time_us
    &&& was_free_for(record.free_time_us, steps, options, i)
}

/// Whether an import has taken what is asked for of some values of a trace.
pub open spec fn has_taken(
    import: TraceImport,
    steps: Seq<TraceStep>,
    options: ImportTraceOptions,
    n: nat,
) -> bool {
    let asked = asked_at(steps, options, n);
    &&& import.taken().len() == asked.len()
    &&& forall|k: int|
        0 <= k < asked.len() ==> {
            &&& 0 <= #[trigger] asked[k] < n
            &&& is_record_of(import.taken()[k], steps, options, asked[k])
        }
}

/// Whether an import knows when each stream was last busy, after some values of a
/// trace.
pub open spec fn knows_streams(
    import: TraceImport,
    steps: Seq<TraceStep>,
    options: ImportTraceOptions,
    n: int,
) -> bool {
    forall|device: Seq<char>, stream: Seq<char>|
        match #[trigger] import.streams.end_of(device, stream) {
            Some(end_us) => {
                &&& was_busy(steps, options, n, device, stream)
                &&& was_last_busy(steps, options, n, device, stream, end_us)
            },
            None => !was_busy(steps, options, n, device, stream),
        }
}

proof fn lemma_streams(
    before: TraceImport,
    after: TraceImport,
    steps: Seq<TraceStep>,
    options: ImportTraceOptions,
    n: int,
    event: EventView,
    accepted: Option<Accepted>,
    wanted: bool,
)
    requires
        0 <= n < steps.len(),
        knows_streams(before, steps, options, n),
        is_call_event(steps[n].event, options),
        tells_of(event, steps[n].event->0, steps[n].readings),
        after.has_accepted(before, event, steps[n].times, wanted, accepted),
    ensures
        knows_streams(after, steps, options, n + 1),
{
    let end = steps[n].times.end_us;
    assert forall|device: Seq<char>, stream: Seq<char>|
        match #[trigger] after.streams.end_of(device, stream) {
            Some(end_us) => {
                &&& was_busy(steps, options, n + 1, device, stream)
                &&& was_last_busy(steps, options, n + 1, device, stream, end_us)
            },
            None => !was_busy(steps, options, n + 1, device, stream),
        } by {
        let previous = before.streams.end_of(device, stream);
        if device == event.device && stream == event.stream {
            assert(runs_on(steps[n], options, device, stream));
            let now = after.streams.end_of(device, stream)->0;
            if let Some(earlier) = previous {
                if now == earlier && earlier.bits != SIGN + INFINITE {
                    let j = choose|j: int|
                        0 <= j < n && #[trigger] runs_on(steps[j], options, device, stream)
                            && steps[j].times.end_us == earlier;
                    assert(runs_on(steps[j], options, device, stream));
                }
            }
            assert forall|j: int|
                0 <= j < n + 1 && #[trigger] runs_on(
                    steps[j],
                    options,
                    device,
                    stream,
                ) implies !now.below(steps[j].times.end_us) by {
                if j < n {
                    assert(was_busy(steps, options, n, device, stream));
                }
            }
        } else {
            assert(!runs_on(steps[n], options, device, stream));
            if was_busy(steps, options, n, device, stream) {
                let j = choose|j: int|
                    0 <= j < n && #[trigger] runs_on(steps[j], options, device, stream);
                assert(runs_on(steps[j], options, device, stream));
            }
            if previous is Some && previous->0.bits != SIGN + INFINITE {
                let j = choose|j: int|
                    0 <= j < n && #[trigger] runs_on(steps[j], options, device, stream)
                        && steps[j].times.end_us == previous->0;
                assert(runs_on(steps[j], options, device, stream));
            }
        }
    }
}

proof fn lemma_streams_stay(
    before: TraceImport,
    after: TraceImport,
    steps: Seq<TraceStep>,
    options: ImportTraceOptions,
    n: int,
)
    requires
        0 <= n < steps.len(),
        knows_streams(before, steps, options, n),
        !is_call_event(steps[n].event, options),
        after.streams == before.streams,
    ensures
        knows_streams(after, steps, options, n + 1),
{
    assert forall|device: Seq<char>, stream: Seq<char>|
        match #[trigger] after.streams.end_of(device, stream) {
            Some(end_us) => {
                &&& was_busy(steps, options, n + 1, device, stream)
                &&& was_last_busy(steps, options, n + 1, device, stream, end_us)
            },
            None => !was_busy(steps, options, n + 1, device, stream),
        } by {
        let previous = before.streams.end_of(device, stream);
        assert(!runs_on(steps[n], options, device, stream));
        if was_busy(steps, options, n, device, stream) {
            let j = choose|j: int|
                0 <= j < n && #[trigger] runs_on(steps[j], options, device, stream);
            assert(runs_on(steps[j], options, device, stream));
        }
        if previous is Some && previous->0.bits != SIGN + INFINITE {
            let j = choose|j: int|
                0 <= j < n && #[trigger] runs_on(steps[j], options, device, stream)
                    && steps[j].times.end_us == previous->0;
            assert(runs_on(steps[j], options, device, stream));
        }
    }
}

proof fn lemma_step_takes(
    before: TraceImport,
    after: TraceImport,
    steps: Seq<TraceStep>,
    options: ImportTraceOptions,
    n: nat,
)
    requires
        n < steps.len(),
        leads_to(before, steps[n as int], after),
        are_filters_of(before.filters, options),
        before.min_device_time_us == options.min_device_time_us,
        has_taken(before, steps, options, n),
        knows_streams(before, steps, options, n as int),
    ensures
        are_filters_of(after.filters, options),
        after.min_device_time_us == options.min_device_time_us,
        after.run_id == before.run_id,
        has_taken(after, steps, options, n + 1),
        knows_streams(after, steps, options, n as int + 1),
{
    let step = steps[n as int];
    let (decoded, accepted, r) = choose|
        decoded: TraceImport,
        accepted: TraceImport,
        r: Option<Accepted>,
    | #[trigger]
        leads_over(before, step, decoded, accepted, r, after);
    assert(decoded.taken() == before.taken());
    assert(knows_streams(decoded, steps, options, n as int));
    let call = before.call_in(step.event, step.readings);
    if let Some(event) = step.event {
        calls_tell_of_their_events(event, options, before.filters, step.readings);
    }
    let asked = asked_at(steps, options, n);
    if let Some(call) = call {
        calls_are_taken_by_name_and_length(options, decoded, accepted, call, step.times, r);
        lemma_streams(
            decoded,
            accepted,
            steps,
            options,
            n as int,
            call,
            r,
            decoded.filters.takes(call.op_name),
        );
        assert(r is Some <==> is_asked_for(step, options));
        if r is Some {
            let record = record_views(accepted.batch@).last();
            assert(accepted.taken() =~= decoded.taken().push(record));
            assert(is_record_of(record, steps, options, n as int));
            assert forall|k: int| 0 <= k < asked.push(n as int).len() implies {
                &&& 0 <= #[trigger] asked.push(n as int)[k] < n + 1
                &&& is_record_of(accepted.taken()[k], steps, options, asked.push(n as int)[k])
            } by {
                if k < asked.len() {
                    assert(0 <= asked[k] < n);
                }
            }
        } else {
            assert forall|k: int| 0 <= k < asked.len() implies {
                &&& 0 <= #[trigger] asked[k] < n + 1
                &&& is_record_of(accepted.taken()[k], steps, options, asked[k])
            } by {
                assert(0 <= asked[k] < n);
            }
        }
    } else {
        lemma_streams_stay(decoded, accepted, steps, options, n as int);
    }
    assert(has_taken(accepted, steps, options, n + 1));
    if after != accepted {
        flushing_takes_nothing_away(accepted, after);
        assert(knows_streams(after, steps, options, n as int + 1));
    }
}

proof fn lemma_import_takes(
    states: Seq<TraceImport>,
    steps: Seq<TraceStep>,
    options: ImportTraceOptions,
    n: nat,
)
    requires
        is_import(states, steps),
        n <= steps.len(),
        are_filters_of(states[0].filters, options),
        states[0].min_device_time_us == options.min_device_time_us,
        states[0].taken().len() == 0,
        forall|device: Seq<char>, stream: Seq<char>|
            (#[trigger] states[0].streams.end_of(device, stream)) is None,
    ensures
        are_filters_of(states[n as int].filters, options),
        states[n as int].min_device_time_us == options.min_device_time_us,
        states[n as int].run_id == states[0].run_id,
        has_taken(states[n as int], steps, options, n),
        knows_streams(states[n as int], steps, options, n as int),
    decreases n,
{
    if n > 0 {
        let last = (n - 1) as nat;
        lemma_import_takes(states, steps, options, last);
        assert(leads_to(states[last as int], steps[last as int], states[last as int + 1]));
        lemma_step_takes(states[last as int], states[n as int], steps, options, last);
    }
}

/// An import takes the calls that are asked for and no others, one after another: the
/// complete events of the named categories, whose names match what is to be taken and
/// not what is to be left out, and which are not shorter than asked for. It numbers
/// them from one on, and says of each what its event says, and how long its stream was
/// free before. A stream is known to be busy with every call on it, be it asked for or
/// not.
pub proof fn imports_take_what_is_asked_for(
    states: Seq<TraceImport>,
    steps: Seq<TraceStep>,
    options: ImportTraceOptions,
    filters: TraceFilters,
    run_id: i64,
    n: int,
)
    requires
        is_import(states, steps),
        0 <= n <= steps.len(),
        states[n].well_formed(),
        are_filters_of(filters, options),
        states[0].has_begun(run_id, filters, options),
    ensures
        ({
            let taken = states[n].taken();
            let asked = asked_at(steps, options, n as nat);
            &&& taken.len() == asked.len()
            &&& states[n].summary.call_total() == asked.len()
            &&& forall|k: int|
                0 <= k < taken.len() ==> {
                    &&& is_record_of(#[trigger] taken[k], steps, options, asked[k])
                    &&& taken[k].call_order == k + 1
                    &&& taken[k].run_id == run_id
                }
        }),
        knows_streams(states[n], steps, options, n),
{
    lemma_import_takes(states, steps, options, n as nat);
    let taken = states[n].taken();
    let asked = asked_at(steps, options, n as nat);
    assert forall|k: int| 0 <= k < taken.len() implies {
        &&& is_record_of(#[trigger] taken[k], steps, options, asked[k])
        &&& taken[k].call_order == k + 1
        &&& taken[k].run_id == run_id
    } by {
        assert(0 <= asked[k] < n);
    }
}

/// The places of the calls that are asked for go up, and each that is asked for is one
/// of them.
pub proof fn asked_places_are_all_places(
    steps: Seq<TraceStep>,
    options: ImportTraceOptions,
    n: nat,
)
    requires
        n <= steps.len(),
    ensures
        forall|a: int, b: int|
            0 <= a < b < asked_at(steps, options, n).len() ==> (#[trigger] asked_at(
                steps,
                options,
                n,
            )[a]) < (#[trigger] asked_at(steps, options, n)[b]),
        forall|i: int|
            0 <= i < n ==> (#[trigger] is_asked_for(steps[i], options) <==> asked_at(
                steps,
                options,
                n,
            ).contains(i)),
        forall|k: int|
            0 <= k < asked_at(steps, options, n).len() ==> 0 <= #[trigger] asked_at(
                steps,
                options,
                n,
            )[k] < n,
    decreases n,
{
    if n > 0 {
        let last = (n - 1) as nat;
        asked_places_are_all_places(steps, options, last);
        let before = asked_at(steps, options, last);
        let after = asked_at(steps, options, n);
        assert forall|i: int| 0 <= i < n implies (#[trigger] is_asked_for(steps[i], options)
            <==> after.contains(i)) by {
            if i < last {
                if before.contains(i) {
                    let k = choose|k: int| 0 <= k < before.len() && before[k] == i;
                    assert(after[k] == i);
                }
                if after.contains(i) {
                    let k = choose|k: int| 0 <= k < after.len() && after[k] == i;
                    assert(before[k] == i);
                }
            } else if is_asked_for(steps[i], options) {
                assert(after[before.len() as int] == i);
            } else if after.contains(i) {
                let k = choose|k: int| 0 <= k < after.len() && after[k] == i;
                assert(before[k] < last);
            }
        }
    }
}

/// Whether a pattern is missing, empty, or a regular expression.
pub open spec fn can_be_asked(pattern: Option<String>) -> bool {
    pattern is Some && pattern->0@.len() > 0 ==> regex_compiles(pattern->0@)
}

/// An import can begin if and only if a category is named, or all are wanted, and each
/// pattern is a regular expression. It is refused for the first of these that fails,
/// and then says which. Where it begins, it takes what is asked for.
pub proof fn imports_begin_where_they_can(
    options: ImportTraceOptions,
    answer: Result<TraceFilters, FilterError>,
)
    requires
        is_filters_answer(options, answer),
    ensures
        ({
            let named = options.all_categories || exists|category: Seq<char>| #[trigger]
                names_category(options.categories@, category);
            match answer {
                Ok(filters) => {
                    &&& named
                    &&& can_be_asked(options.include_name)
                    &&& can_be_asked(options.exclude_name)
                    &&& are_filters_of(filters, options)
                    &&& filters.categories is None <==> options.all_categories
                },
                Err(FilterError::NoCategories) => !named,
                Err(FilterError::InvalidPattern { flag, .. }) => {
                    &&& named
                    &&& flag@ == "--include-name"@ || flag@ == "--exclude-name"@
                    &&& flag@ == "--include-name"@ <==> !can_be_asked(options.include_name)
                    &&& flag@ == "--exclude-name"@ ==> !can_be_asked(options.exclude_name)
                },
            }
        }),
{
    reveal_strlit("--include-name");
    reveal_strlit("--exclude-name");
    assert("--include-name"@[2] == 'i');
    assert("--exclude-name"@[2] == 'e');
    if !names_none(options.categories@, options.all_categories) && !options.all_categories {
        let category = choose|category: Seq<char>| names_category(options.categories@, category);
        assert(names_category(options.categories@, category));
    }
}

} // verus!
