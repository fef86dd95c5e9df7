//! What an import takes does not depend on how its calls are put together to be
//! written, nor on how often its progress is told.
use vstd::prelude::*;

use crate::category::CategorySet;
use crate::importer::{
    categories_of, is_choice, is_compiled, Accepted, EventTimes, ImportTraceOptions, TraceFilters,
    TraceImport,
};
use crate::measure::Measure;
use crate::record::{record_views, records_params, RecordView};
use crate::text::{opt_view, order_is_unique};
use crate::trace::TraceEventView;

verus! {

/// Whether two filters take the same events.
pub open spec fn same_filters(a: TraceFilters, b: TraceFilters) -> bool {
    &&& categories_of(a) == categories_of(b)
    &&& forall|name: Seq<char>| #[trigger] a.takes(name) == b.takes(name)
}

/// Whether two imports have come to the same: they look for the same events, have
/// read as many, and have taken the same calls, of which each may have handed out
/// others to be written.
pub open spec fn agree(a: TraceImport, b: TraceImport) -> bool {
    &&& a.run_id == b.run_id
    &&& same_filters(a.filters, b.filters)
    &&& a.min_device_time_us == b.min_device_time_us
    &&& forall|device: Seq<char>, stream: Seq<char>| #[trigger]
        a.streams.end_of(device, stream) == b.streams.end_of(device, stream)
    &&& a.summary@ == b.summary@
    &&& a.summary.call_total() == b.summary.call_total()
    &&& a.summary.history() == b.summary.history()
    &&& a.taken() == b.taken()
    &&& a.decoded_events == b.decoded_events
}

/// An event of a trace, or a value that is none, with what arithmetic says of it.
pub struct TraceStep {
    pub event: Option<TraceEventView>,
    pub readings: Map<Seq<char>, Measure>,
    pub times: EventTimes,
}

/// Whether an event leads from one state of an import to another: it is read, its
/// call, if it has one, is taken or left out, and the calls that were put aside may
/// be handed out.
pub open spec fn leads_to(before: TraceImport, step: TraceStep, after: TraceImport) -> bool {
    exists|decoded: TraceImport, accepted: TraceImport, r: Option<Accepted>| #[trigger]
        leads_over(before, step, decoded, accepted, r, after)
}

/// Whether an event leads from one state of an import to another over others.
pub open spec fn leads_over(
    before: TraceImport,
    step: TraceStep,
    decoded: TraceImport,
    accepted: TraceImport,
    r: Option<Accepted>,
    after: TraceImport,
) -> bool {
    &&& decoded.has_decoded(before)
    &&& match before.call_in(step.event, step.readings) {
        Some(call) => accepted.has_judged(decoded, call, step.times, r),
        None => accepted == decoded,
    }
    &&& after == accepted || after.has_flushed(accepted)
}

/// Whether states of an import follow one another, an event after another.
pub open spec fn is_import(states: Seq<TraceImport>, steps: Seq<TraceStep>) -> bool {
    &&& states.len() == steps.len() + 1
    &&& forall|i: int|
        0 <= i < steps.len() ==> leads_to(#[trigger] states[i], steps[i], states[i + 1])
}

proof fn lemma_same_choice(a: CategorySet, b: CategorySet)
    requires
        a.well_formed(),
        b.well_formed(),
        forall|t: Seq<char>| #[trigger] a@.contains(t) <==> b@.contains(t),
    ensures
        a@ == b@,
{
    order_is_unique(a@, b@);
}

/// Filters that are asked for in the same way take the same events.
pub proof fn same_request_same_filters(
    options: ImportTraceOptions,
    other: ImportTraceOptions,
    a: TraceFilters,
    b: TraceFilters,
)
    requires
        options.categories@ == other.categories@,
        options.all_categories == other.all_categories,
        opt_view(options.include_name) == opt_view(other.include_name),
        opt_view(options.exclude_name) == opt_view(other.exclude_name),
        is_choice(a.categories, options.categories@, options.all_categories),
        is_choice(b.categories, other.categories@, other.all_categories),
        is_compiled(a.include_name, opt_view(options.include_name)),
        is_compiled(b.include_name, opt_view(other.include_name)),
        is_compiled(a.exclude_name, opt_view(options.exclude_name)),
        is_compiled(b.exclude_name, opt_view(other.exclude_name)),
    ensures
        same_filters(a, b),
{
    if let Some(set) = a.categories {
        lemma_same_choice(set, b.categories->0);
    }
}

/// Handing calls out changes nothing of what was taken.
pub proof fn flushing_takes_nothing_away(before: TraceImport, after: TraceImport)
    requires
        after.has_flushed(before),
    ensures
        agree(before, after),
{
    assert(record_views(after.batch@) =~= Seq::<RecordView>::empty());
    assert(after.taken() =~= before.taken());
}

proof fn lemma_step(
    a: TraceImport,
    b: TraceImport,
    step: TraceStep,
    next_a: TraceImport,
    next_b: TraceImport,
)
    requires
        a.well_formed(),
        b.well_formed(),
        agree(a, b),
        leads_to(a, step, next_a),
        leads_to(b, step, next_b),
    ensures
        agree(next_a, next_b),
{
    let (decoded_a, accepted_a, r_a) = choose|
        decoded: TraceImport,
        accepted: TraceImport,
        r: Option<Accepted>,
    | #[trigger]
        leads_over(a, step, decoded, accepted, r, next_a);
    let (decoded_b, accepted_b, r_b) = choose|
        decoded: TraceImport,
        accepted: TraceImport,
        r: Option<Accepted>,
    | #[trigger]
        leads_over(b, step, decoded, accepted, r, next_b);
    assert(decoded_a.taken() == a.taken());
    assert(decoded_b.taken() == b.taken());
    assert(agree(decoded_a, decoded_b));
    if let Some(call) = a.call_in(step.event, step.readings) {
        assert(decoded_a.filters.takes(call.op_name) == decoded_b.filters.takes(call.op_name));
        assert(r_a is Some == r_b is Some);
        if r_a is Some {
            assert(r_a->0.op_call_index == r_b->0.op_call_index);
            assert(accepted_a.taken() =~= decoded_a.taken().push(
                record_views(accepted_a.batch@).last(),
            ));
            assert(accepted_b.taken() =~= decoded_b.taken().push(
                record_views(accepted_b.batch@).last(),
            ));
        } else {
            assert(accepted_a.taken() == decoded_a.taken());
            assert(accepted_b.taken() == decoded_b.taken());
        }
    }
    assert(agree(accepted_a, accepted_b));
    if next_a != accepted_a {
        flushing_takes_nothing_away(accepted_a, next_a);
    }
    if next_b != accepted_b {
        flushing_takes_nothing_away(accepted_b, next_b);
    }
}

/// Two imports of the same events that differ in nothing but the size of their
/// batches and how often their progress is told take the same calls, count the same
/// operations and end with the same result. When each has handed out all its calls,
/// the rows that it has handed out are the same, one after another.
pub proof fn batches_change_nothing(
    a: Seq<TraceImport>,
    b: Seq<TraceImport>,
    steps: Seq<TraceStep>,
    end_a: TraceImport,
    end_b: TraceImport,
)
    requires
        is_import(a, steps),
        is_import(b, steps),
        forall|i: int| 0 <= i < a.len() ==> (#[trigger] a[i]).well_formed(),
        forall|i: int| 0 <= i < b.len() ==> (#[trigger] b[i]).well_formed(),
        agree(a[0], b[0]),
        end_a.has_flushed(a.last()),
        end_b.has_flushed(b.last()),
    ensures
        forall|i: int| 0 <= i < a.len() ==> agree(#[trigger] a[i], b[i]),
        end_a.run_id == end_b.run_id,
        end_a.summary.call_total() == end_b.summary.call_total(),
        end_a.summary@ == end_b.summary@,
        records_params(end_a.written@) == records_params(end_b.written@),
{
    assert forall|i: int| 0 <= i < a.len() implies agree(#[trigger] a[i], b[i]) by {
        lemma_all_agree(a, b, steps, i);
    }
    let last = steps.len() as int;
    assert(agree(a[last], b[last]));
}

proof fn lemma_all_agree(
    a: Seq<TraceImport>,
    b: Seq<TraceImport>,
    steps: Seq<TraceStep>,
    i: int,
)
    requires
        is_import(a, steps),
        is_import(b, steps),
        forall|k: int| 0 <= k < a.len() ==> (#[trigger] a[k]).well_formed(),
        forall|k: int| 0 <= k < b.len() ==> (#[trigger] b[k]).well_formed(),
        agree(a[0], b[0]),
        0 <= i <= steps.len(),
    ensures
        agree(a[i], b[i]),
    decreases i,
{
    if i > 0 {
        lemma_all_agree(a, b, steps, i - 1);
        assert(leads_to(a[i - 1], steps[i - 1], a[i - 1 + 1]));
        assert(leads_to(b[i - 1], steps[i - 1], b[i - 1 + 1]));
        lemma_step(a[i - 1], b[i - 1], steps[i - 1], a[i], b[i]);
    }
}

/// Imports that begin with the same run and the same request agree, whatever the
/// size of their batches and however often their progress is told.
pub proof fn imports_begin_alike(a: TraceImport, b: TraceImport)
    requires
        a.well_formed(),
        b.well_formed(),
        a.run_id == b.run_id,
        same_filters(a.filters, b.filters),
        a.min_device_time_us == b.min_device_time_us,
        forall|device: Seq<char>, stream: Seq<char>|
            (#[trigger] a.streams.end_of(device, stream)) is None,
        forall|device: Seq<char>, stream: Seq<char>|
            (#[trigger] b.streams.end_of(device, stream)) is None,
        a.summary.call_total() == 0,
        b.summary.call_total() == 0,
        a.decoded_events == 0,
        b.decoded_events == 0,
    ensures
        agree(a, b),
{
    assert(a.summary.history() =~= b.summary.history());
    assert(a.taken() =~= b.taken());
}

} // verus!
