//! Imports: what is asked for, and what becomes of each event and each row.
use vstd::prelude::*;

use crate::category::{
    compile_regex, is_taken, names_category, parse_categories, regex_compiles, regex_matches,
    regex_source, selected_name, CategorySet, FilterError,
};
use crate::decimal::{i64_text, int_text};
use crate::event::{event_call, parse_device_event, wanted, DeviceEvent, EventView};
use crate::measure::Measure;
use crate::record::{
    accounts_for, flush_calls, insert_call_sql, is_counted, lemma_account_goes_on, record_views,
    records_params, row_views, writes_calls, Batch, CallRecord, RecordView,
};
use crate::stream::{end_after, free_before, free_time, StreamEnds};
use crate::summary::{
    count_sum, counted, occurrences, slot_of, summary_counts_every_call,
    summary_counts_the_calls_of_each, summary_is_in_the_order_of_first_calls, CallFacts, Counted,
    Summary,
};
use crate::table::Table;
use crate::text::{as_str, non_empty, opt_view};
use crate::trace::{TraceEvent, TraceEventView};

verus! {

/// A path in the file system.
#[verifier::external_type_specification]
#[verifier::external_body]
pub struct ExPathBuf(std::path::PathBuf);

/// What is asked of an import of a trace.
#[derive(Debug)]
pub struct ImportTraceOptions {
    pub db_path: std::path::PathBuf,
    pub trace_path: std::path::PathBuf,
    pub label: Option<String>,
    pub categories: String,
    pub all_categories: bool,
    pub include_name: Option<String>,
    pub exclude_name: Option<String>,
    pub min_device_time_us: Measure,
    pub batch_size: usize,
    pub progress_interval: i64,
}

impl ImportTraceOptions {
    /// An import of all kernels of a trace.
    pub fn new(db_path: std::path::PathBuf, trace_path: std::path::PathBuf) -> (r: Self)
        ensures
            r.db_path == db_path,
            r.trace_path == trace_path,
            r.label is None,
            r.categories@ == "kernel"@,
            !r.all_categories,
            r.include_name is None,
            r.exclude_name is None,
            r.min_device_time_us == (Measure { bits: 0 }),
            r.batch_size == 1000,
            r.progress_interval == 100_000,
    {
        ImportTraceOptions {
            db_path,
            trace_path,
            label: None,
            categories: "kernel".to_owned(),
            all_categories: false,
            include_name: None,
            exclude_name: None,
            min_device_time_us: Measure::zero(),
            batch_size: 1000,
            progress_interval: 100_000,
        }
    }
}

/// What is asked of an import of a table of calls.
#[derive(Debug)]
pub struct ImportCsvOptions {
    pub db_path: std::path::PathBuf,
    pub csv_path: std::path::PathBuf,
    pub label: Option<String>,
    pub batch_size: usize,
    pub progress_interval: i64,
}

impl ImportCsvOptions {
    /// An import of a table of calls.
    pub fn new(db_path: std::path::PathBuf, csv_path: std::path::PathBuf) -> (r: Self)
        ensures
            r.db_path == db_path,
            r.csv_path == csv_path,
            r.label is None,
            r.batch_size == 1000,
            r.progress_interval == 100_000,
    {
        ImportCsvOptions {
            db_path,
            csv_path,
            label: None,
            batch_size: 1000,
            progress_interval: 100_000,
        }
    }
}

/// What an import has done.
#[derive(Debug)]
pub struct ImportResult {
    pub db_path: std::path::PathBuf,
    pub run_id: i64,
    pub gpu_calls: i64,
    pub unique_ops: usize,
}

/// Whether a result is that of an import with some operations.
pub open spec fn is_result_of(
    result: ImportResult,
    db_path: std::path::PathBuf,
    run_id: i64,
    summary: Summary,
) -> bool {
    &&& result.db_path == db_path
    &&& result.run_id == run_id
    &&& result.gpu_calls == summary.call_total()
    &&& result.unique_ops == summary@.len()
}

/// What an optional event is.
pub open spec fn opt_trace_view(event: Option<&TraceEvent>) -> Option<TraceEventView> {
    match event {
        Some(event) => Some(event@),
        None => None,
    }
}

/// What an optional call is.
pub open spec fn opt_event_view(call: Option<DeviceEvent>) -> Option<EventView> {
    match call {
        Some(call) => Some(call@),
        None => None,
    }
}

/// Which events of a trace are taken.
#[derive(Debug)]
pub struct TraceFilters {
    pub categories: Option<CategorySet>,
    pub include_name: Option<regex::Regex>,
    pub exclude_name: Option<regex::Regex>,
}

/// Whether a pattern is given that is not a regular expression.
pub open spec fn is_broken(pattern: Option<Seq<char>>) -> bool {
    match non_empty(pattern) {
        Some(text) => !regex_compiles(text),
        None => false,
    }
}

/// Whether an expression is the one that a pattern asks for.
pub open spec fn is_compiled(regex: Option<regex::Regex>, pattern: Option<Seq<char>>) -> bool {
    match (regex, non_empty(pattern)) {
        (Some(regex), Some(text)) => regex_source(regex) == text,
        (None, None) => true,
        _ => false,
    }
}

/// Whether categories are those that a list names, or all.
pub open spec fn is_choice(
    categories: Option<CategorySet>,
    list: Seq<char>,
    all_categories: bool,
) -> bool {
    match categories {
        None => all_categories,
        Some(set) => {
            &&& !all_categories
            &&& set.well_formed()
            &&& set@.len() > 0
            &&& forall|t: Seq<char>| #[trigger] set@.contains(t) <==> names_category(list, t)
        },
    }
}

/// Whether a list names no category although some are to be named.
pub open spec fn names_none(list: Seq<char>, all_categories: bool) -> bool {
    !all_categories && forall|t: Seq<char>| !names_category(list, t)
}

/// Whether an answer is the one to what an import asks for.
pub open spec fn is_filters_answer(
    options: ImportTraceOptions,
    answer: Result<TraceFilters, FilterError>,
) -> bool {
    match answer {
        Ok(filters) => {
            &&& !names_none(options.categories@, options.all_categories)
            &&& !is_broken(opt_view(options.include_name))
            &&& !is_broken(opt_view(options.exclude_name))
            &&& is_choice(filters.categories, options.categories@, options.all_categories)
            &&& is_compiled(filters.include_name, opt_view(options.include_name))
            &&& is_compiled(filters.exclude_name, opt_view(options.exclude_name))
        },
        Err(FilterError::NoCategories) => names_none(options.categories@, options.all_categories),
        Err(FilterError::InvalidPattern { flag, .. }) => {
            &&& !names_none(options.categories@, options.all_categories)
            &&& if is_broken(opt_view(options.include_name)) {
                flag@ == "--include-name"@
            } else {
                is_broken(opt_view(options.exclude_name)) && flag@ == "--exclude-name"@
            }
        },
    }
}

/// Which events an import takes, if what it asks for can be had.
pub fn trace_filters(options: &ImportTraceOptions) -> (r: Result<TraceFilters, FilterError>)
    ensures
        match r {
            Ok(filters) => {
                &&& !names_none(options.categories@, options.all_categories)
                &&& !is_broken(opt_view(options.include_name))
                &&& !is_broken(opt_view(options.exclude_name))
                &&& is_choice(
                    filters.categories,
                    options.categories@,
                    options.all_categories,
                )
                &&& is_compiled(filters.include_name, opt_view(options.include_name))
                &&& is_compiled(filters.exclude_name, opt_view(options.exclude_name))
            },
            Err(FilterError::NoCategories) => names_none(
                options.categories@,
                options.all_categories,
            ),
            Err(FilterError::InvalidPattern { flag, .. }) => {
                &&& !names_none(options.categories@, options.all_categories)
                &&& if is_broken(opt_view(options.include_name)) {
                    flag@ == "--include-name"@
                } else {
                    is_broken(opt_view(options.exclude_name)) && flag@ == "--exclude-name"@
                }
            },
        },
        is_filters_answer(*options, r),
{
    let categories = match parse_categories(options.categories.as_str(), options.all_categories) {
        Ok(categories) => categories,
        Err(error) => {
            return Err(error);
        },
    };
    proof {
        if categories is Some {
            assert(categories->0@.contains(categories->0@[0]));
        }
    }
    let include_name = match compile_regex(as_str(&options.include_name), "--include-name") {
        Ok(regex) => regex,
        Err(error) => {
            return Err(error);
        },
    };
    let exclude_name = match compile_regex(as_str(&options.exclude_name), "--exclude-name") {
        Ok(regex) => regex,
        Err(error) => {
            return Err(error);
        },
    };
    Ok(TraceFilters { categories, include_name, exclude_name })
}

/// Whether a batch is to be written: it is as large as asked for, or holds one
/// call where less is asked for.
pub open spec fn is_full(len: nat, batch_size: usize) -> bool {
    len >= batch_size && len >= 1
}

/// Whether progress is to be told after so many calls.
pub open spec fn is_milestone(count: int, interval: i64) -> bool {
    interval > 0 && count % (interval as int) == 0
}

pub(crate) fn milestone(count: i64, interval: i64) -> (r: bool)
    requires
        count >= 0,
    ensures
        r == is_milestone(count as int, interval),
{
    if interval <= 0 {
        return false;
    }
    (count as u64) % (interval as u64) == 0
}

/// What is told of the progress of an import of a trace.
pub open spec fn trace_progress(run_id: i64, calls: int, events: int) -> Seq<char> {
    "run "@ + int_text(run_id as int) + ": imported "@ + int_text(calls) + " GPU calls, decoded "@
        + int_text(events) + " events"@
}

/// What is told of the progress of an import of a table.
pub open spec fn csv_progress(run_id: i64, rows: int) -> Seq<char> {
    "run "@ + int_text(run_id as int) + ": imported "@ + int_text(rows) + " CSV rows"@
}

/// What becomes of a call that is taken.
#[derive(Debug)]
pub struct Accepted {
    /// The place of its operation among the operations.
    pub slot: usize,
    /// Which of the operation's calls it is.
    pub op_call_index: i64,
    /// Whether the calls that were put aside are to be written now.
    pub flush: bool,
    /// What is to be told of the progress now.
    pub progress: Option<String>,
}

/// The times of an event that arithmetic gives.
#[derive(Clone, Copy, Debug)]
pub struct EventTimes {
    /// The start and the duration together.
    pub end_us: Measure,
    /// The start less the end of what the stream did before, where it did
    /// anything.
    pub gap_us: Measure,
    /// The duration and the free time together.
    pub total_time_us: Measure,
}

/// How long the stream of an event was free before it.
pub open spec fn event_free_time(previous: Option<Measure>, gap_us: Measure) -> Measure {
    free_before(
        match previous {
            Some(_) => Some(gap_us),
            None => None,
        },
    )
}

/// An import of a trace on its way.
pub struct TraceImport {
    pub run_id: i64,
    pub filters: TraceFilters,
    pub min_device_time_us: Measure,
    pub batch_size: usize,
    pub progress_interval: i64,
    pub streams: StreamEnds,
    pub summary: Summary,
    pub batch: Vec<CallRecord>,
    pub decoded_events: i64,
    /// The calls that were handed out to be written.
    pub written: Ghost<Seq<RecordView>>,
}

/// What is counted of an event.
pub open spec fn event_facts(
    event: EventView,
    free_time_us: Measure,
    times: EventTimes,
    call_order: i64,
) -> CallFacts {
    CallFacts {
        call_order,
        category: event.category,
        op_name: event.op_name,
        device_time_us: event.device_time_us,
        free_time_us,
        total_time_us: times.total_time_us,
        occupancy_pct: event.occupancy_pct,
    }
}

/// What is written of an event.
pub open spec fn event_record(
    event: EventView,
    free_time_us: Measure,
    times: EventTimes,
    run_id: i64,
    call_order: i64,
    op_call_index: i64,
) -> RecordView {
    RecordView {
        run_id,
        call_order,
        op_call_index,
        category: event.category,
        op_name: event.op_name,
        device_time_us: event.device_time_us,
        occupancy_pct: event.occupancy_pct,
        blocks_per_sm: event.blocks_per_sm,
        warps_per_sm: event.warps_per_sm,
        shared_memory: event.shared_memory,
        grid: event.grid,
        block: event.block,
        free_time_us,
        total_time_us: times.total_time_us,
        start_ts_us: Some(event.start_us),
        end_ts_us: Some(times.end_us),
        device: event.device,
        stream: event.stream,
        pid: event.pid,
        tid: event.tid,
        correlation: event.correlation,
        external_id: event.external_id,
    }
}

/// Whether an optional expression matches a name.
pub open spec fn regex_finds(regex: Option<regex::Regex>, name: Seq<char>) -> Option<bool> {
    match regex {
        Some(regex) => Some(regex_matches(regex_source(regex), name)),
        None => None,
    }
}

impl TraceFilters {
    /// Whether a name is one of those to be taken.
    pub open spec fn takes(self, name: Seq<char>) -> bool {
        is_taken(regex_finds(self.include_name, name), regex_finds(self.exclude_name, name))
    }
}

/// Whether the calls of a trace are numbered one after another, from one on, and
/// their total times are those that were counted.
pub open spec fn is_numbered(records: Seq<RecordView>, history: Seq<CallFacts>) -> bool {
    forall|i: int|
        0 <= i < records.len() ==> (#[trigger] records[i]).call_order == i + 1
            && records[i].total_time_us == history[i].total_time_us
}

impl TraceImport {
    /// The calls that were taken: those handed out to be written, and those put
    /// aside.
    pub open spec fn taken(self) -> Seq<RecordView> {
        self.written@ + record_views(self.batch@)
    }

    /// Whether the operations are those of the calls that were taken, and the calls
    /// are numbered one after another.
    pub open spec fn well_formed(self) -> bool {
        &&& self.summary.well_formed()
        &&& 0 <= self.decoded_events
        &&& accounts_for(self.taken(), self.summary.history(), self.run_id)
        &&& is_numbered(self.taken(), self.summary.history())
    }

    /// Whether this is an import of a trace before its first event.
    pub open spec fn has_begun(
        self,
        run_id: i64,
        filters: TraceFilters,
        options: ImportTraceOptions,
    ) -> bool {
        &&& self.run_id == run_id
        &&& self.filters == filters
        &&& self.min_device_time_us == options.min_device_time_us
        &&& self.batch_size == options.batch_size
        &&& self.progress_interval == options.progress_interval
        &&& forall|device: Seq<char>, stream: Seq<char>|
            (#[trigger] self.streams.end_of(device, stream)) is None
        &&& self.summary.call_total() == 0
        &&& self.decoded_events == 0
        &&& self.taken().len() == 0
    }

    /// The import of a trace before its first event.
    pub fn new(run_id: i64, filters: TraceFilters, options: &ImportTraceOptions) -> (r: TraceImport)
        ensures
            r.well_formed(),
            r.run_id == run_id,
            r.filters == filters,
            r.min_device_time_us == options.min_device_time_us,
            r.batch_size == options.batch_size,
            r.progress_interval == options.progress_interval,
            forall|device: Seq<char>, stream: Seq<char>|
                (#[trigger] r.streams.end_of(device, stream)) is None,
            r.summary@.len() == 0,
            r.summary.call_total() == 0,
            r.batch@.len() == 0,
            r.decoded_events == 0,
            r.written@ == Seq::<RecordView>::empty(),
            r.has_begun(run_id, filters, *options),
    {
        TraceImport {
            run_id,
            filters,
            min_device_time_us: options.min_device_time_us,
            batch_size: options.batch_size,
            progress_interval: options.progress_interval,
            streams: StreamEnds::new(),
            summary: Summary::new(),
            batch: Vec::new(),
            decoded_events: 0,
            written: Ghost(Seq::empty()),
        }
    }

    /// Whether two imports ask for the same.
    pub open spec fn same_request(self, other: TraceImport) -> bool {
        &&& self.run_id == other.run_id
        &&& self.filters == other.filters
        &&& self.min_device_time_us == other.min_device_time_us
        &&& self.batch_size == other.batch_size
        &&& self.progress_interval == other.progress_interval
    }

    /// Whether one more event was read, and nothing else happened.
    pub open spec fn has_decoded(self, before: TraceImport) -> bool {
        &&& self.same_request(before)
        &&& self.streams == before.streams
        &&& self.summary == before.summary
        &&& self.batch == before.batch
        &&& self.written == before.written
        &&& self.decoded_events == before.decoded_events + 1
    }

    /// The call that an event of the trace stands for, which may be no event at all.
    pub open spec fn call_in(
        self,
        event: Option<TraceEventView>,
        readings: Map<Seq<char>, Measure>,
    ) -> Option<EventView> {
        match event {
            Some(event) => event_call(event, categories_of(self.filters), readings),
            None => None,
        }
    }

    /// Reads the call of an event of the trace, which may be no event at all. The
    /// quantities that texts read as are given.
    pub fn decode(&mut self, event: Option<&TraceEvent>, readings: &Table<Measure>) -> (r: Option<
        DeviceEvent,
    >)
        requires
            old(self).well_formed(),
            old(self).decoded_events < i64::MAX,
        ensures
            final(self).well_formed(),
            final(self).has_decoded(*old(self)),
            match r {
                Some(call) => event is Some && event_call(
                    event->0@,
                    categories_of(old(self).filters),
                    readings@,
                ) == Some(call@),
                None => event is Some ==> event_call(
                    event->0@,
                    categories_of(old(self).filters),
                    readings@,
                ) is None,
            },
            opt_event_view(r) == old(self).call_in(opt_trace_view(event), readings@),
    {
        self.decoded_events = self.decoded_events + 1;
        match event {
            Some(event) => parse_device_event(event, self.filters.categories.as_ref(), readings),
            None => None,
        }
    }

    /// When the stream of a call was last busy.
    pub fn previous_end(&self, event: &DeviceEvent) -> (r: Option<Measure>)
        ensures
            r == self.streams.end_of(event.device@, event.stream@),
    {
        self.streams.previous(&event.device, &event.stream)
    }

    /// What becomes of a call whose name is wanted or not: its stream was busy with
    /// it, and it is counted and put aside where it is taken.
    pub open spec fn has_accepted(
        self,
        before: TraceImport,
        event: EventView,
        times: EventTimes,
        wanted: bool,
        accepted: Option<Accepted>,
    ) -> bool {
        let call_order = (before.summary.call_total() + 1) as i64;
        let previous = before.streams.end_of(event.device, event.stream);
        let free_time_us = event_free_time(previous, times.gap_us);
        &&& self.same_request(before)
        &&& self.decoded_events == before.decoded_events
        &&& self.written == before.written
        &&& forall|d: Seq<char>, s: Seq<char>| #[trigger]
            self.streams.end_of(d, s) == (if d == event.device && s == event.stream {
                Some(end_after(previous, times.end_us))
            } else {
                before.streams.end_of(d, s)
            })
        &&& accepted is Some <==> wanted && !event.device_time_us.below(before.min_device_time_us)
        &&& match accepted {
            None => self.summary == before.summary && self.batch == before.batch,
            Some(accepted) => {
                &&& self.summary.call_total() == call_order
                &&& self.summary@ == counted(
                    before.summary@,
                    event_facts(event, free_time_us, times, call_order),
                )
                &&& self.summary.history() == before.summary.history().push(
                    event_facts(event, free_time_us, times, call_order),
                )
                &&& accepted.slot == slot_of(before.summary@, event.category, event.op_name)
                &&& accepted.slot < self.summary@.len()
                &&& accepted.op_call_index == self.summary@[accepted.slot as int].call_count
                &&& record_views(self.batch@) == record_views(before.batch@).push(
                    event_record(
                        event,
                        free_time_us,
                        times,
                        before.run_id,
                        call_order,
                        accepted.op_call_index,
                    ),
                )
                &&& accepted.flush == is_full(self.batch@.len(), before.batch_size)
                &&& opt_view(accepted.progress) == (if is_milestone(
                    call_order as int,
                    before.progress_interval,
                ) {
                    Some(
                        trace_progress(
                            before.run_id,
                            call_order as int,
                            before.decoded_events as int,
                        ),
                    )
                } else {
                    None
                })
            },
        }
    }

    /// What becomes of a call: it is taken where its name is one of those to be taken
    /// and it is long enough.
    pub open spec fn has_judged(
        self,
        before: TraceImport,
        event: EventView,
        times: EventTimes,
        accepted: Option<Accepted>,
    ) -> bool {
        self.has_accepted(before, event, times, before.filters.takes(event.op_name), accepted)
    }

    /// Takes a call, or leaves it out: one that is long enough is taken if its name
    /// is wanted. Either way its stream was busy with it.
    pub fn accept(&mut self, event: DeviceEvent, times: EventTimes) -> (r: Option<Accepted>)
        requires
            old(self).well_formed(),
            old(self).summary.call_total() < i64::MAX,
        ensures
            final(self).well_formed(),
            final(self).has_accepted(
                *old(self),
                event@,
                times,
                old(self).filters.takes(event.op_name@),
                r,
            ),
            final(self).has_judged(*old(self), event@, times, r),
    {
        let wanted = !event.device_time_us.less_than(self.min_device_time_us) && selected_name(
            event.op_name.as_str(),
            self.filters.include_name.as_ref(),
            self.filters.exclude_name.as_ref(),
        );
        self.accept_if(event, times, wanted)
    }

    /// Takes a call whose name is wanted if it is long enough, or leaves it out.
    pub fn accept_if(&mut self, event: DeviceEvent, times: EventTimes, wanted: bool) -> (r: Option<
        Accepted,
    >)
        requires
            old(self).well_formed(),
            old(self).summary.call_total() < i64::MAX,
        ensures
            final(self).well_formed(),
            final(self).has_accepted(*old(self), event@, times, wanted, r),
    {
        let gap: Option<Measure> = match self.streams.previous(&event.device, &event.stream) {
            Some(_) => Some(times.gap_us),
            None => None,
        };
        let free_time_us = free_time(gap);
        self.streams.observe(&event.device, &event.stream, times.end_us);
        if event.device_time_us.less_than(self.min_device_time_us) || !wanted {
            return None;
        }
        let matched_calls = self.summary.total() + 1;
        let Counted { slot, op_call_index } = self.summary.add_summary(
            matched_calls,
            event.category.as_str(),
            event.op_name.as_str(),
            event.device_time_us,
            free_time_us,
            times.total_time_us,
            event.occupancy_pct,
        );
        let ghost before = self.batch@;
        let record = CallRecord {
            run_id: self.run_id,
            call_order: matched_calls,
            op_call_index,
            category: event.category,
            op_name: event.op_name,
            device_time_us: event.device_time_us,
            occupancy_pct: event.occupancy_pct,
            blocks_per_sm: event.blocks_per_sm,
            warps_per_sm: event.warps_per_sm,
            shared_memory: event.shared_memory,
            grid: event.grid,
            block: event.block,
            free_time_us,
            total_time_us: times.total_time_us,
            start_ts_us: Some(event.start_us),
            end_ts_us: Some(times.end_us),
            device: event.device,
            stream: event.stream,
            pid: event.pid,
            tid: event.tid,
            correlation: event.correlation,
            external_id: event.external_id,
        };
        self.batch.push(record);
        assert(record_views(self.batch@) =~= record_views(before).push(record@));
        proof {
            let counted_call = self.summary.history().last();
            assert(self.taken() =~= old(self).taken().push(record@));
            lemma_account_goes_on(
                old(self).taken(),
                old(self).summary.history(),
                self.run_id,
                record@,
                counted_call,
            );
        }
        let flush = self.batch.len() >= self.batch_size && self.batch.len() >= 1;
        let progress: Option<String> = if milestone(matched_calls, self.progress_interval) {
            let mut message = "run ".to_owned();
            message.append(i64_text(self.run_id).as_str());
            message.append(": imported ");
            message.append(i64_text(matched_calls).as_str());
            message.append(" GPU calls, decoded ");
            message.append(i64_text(self.decoded_events).as_str());
            message.append(" events");
            Some(message)
        } else {
            None
        };
        Some(Accepted { slot, op_call_index, flush, progress })
    }

    /// Whether the calls that were put aside were handed out, and nothing else
    /// happened.
    pub open spec fn has_flushed(self, before: TraceImport) -> bool {
        &&& self.same_request(before)
        &&& self.streams == before.streams
        &&& self.summary == before.summary
        &&& self.decoded_events == before.decoded_events
        &&& self.batch@.len() == 0
        &&& self.written@ == before.written@ + record_views(before.batch@)
    }

    /// What writes the calls that were put aside.
    pub fn flush(&mut self) -> (r: Option<Batch>)
        requires
            old(self).well_formed(),
        ensures
            final(self).well_formed(),
            final(self).has_flushed(*old(self)),
            match r {
                None => old(self).batch@.len() == 0,
                Some(written) => {
                    &&& old(self).batch@.len() > 0
                    &&& written.sql@ == insert_call_sql()
                    &&& row_views(written.rows@) == records_params(record_views(old(self).batch@))
                },
            },
            writes_calls(r, record_views(old(self).batch@)),
    {
        self.written = Ghost(self.taken());
        let batch = flush_calls(&mut self.batch);
        assert(self.taken() =~= old(self).taken());
        batch
    }

    /// What the import has done.
    pub fn result(&self, db_path: std::path::PathBuf) -> (r: ImportResult)
        ensures
            r.db_path == db_path,
            r.run_id == self.run_id,
            r.gpu_calls == self.summary.call_total(),
            r.unique_ops == self.summary@.len(),
            is_result_of(r, db_path, self.run_id, self.summary),
    {
        ImportResult {
            db_path,
            run_id: self.run_id,
            gpu_calls: self.summary.total(),
            unique_ops: self.summary.len(),
        }
    }
}

/// What the wanted categories are.
pub open spec fn categories_of(filters: TraceFilters) -> Option<Seq<Seq<char>>> {
    match filters.categories {
        Some(set) => Some(set@),
        None => None,
    }
}

/// How many of some calls are of an operation.
pub open spec fn records_of(
    records: Seq<RecordView>,
    category: Seq<char>,
    op_name: Seq<char>,
) -> nat
    decreases records.len(),
{
    if records.len() == 0 {
        0
    } else {
        records_of(records.drop_last(), category, op_name) + (if records.last().category == category
            && records.last().op_name == op_name {
            1nat
        } else {
            0nat
        })
    }
}

proof fn lemma_records_of(
    records: Seq<RecordView>,
    history: Seq<CallFacts>,
    run_id: i64,
    category: Seq<char>,
    op_name: Seq<char>,
)
    requires
        accounts_for(records, history, run_id),
    ensures
        records_of(records, category, op_name) == occurrences(history, category, op_name),
    decreases records.len(),
{
    if records.len() > 0 {
        let init = records.drop_last();
        assert(is_counted(records[records.len() - 1], history[history.len() - 1]));
        assert forall|i: int| 0 <= i < init.len() implies {
            &&& (#[trigger] init[i]).run_id == run_id
            &&& is_counted(init[i], history.drop_last()[i])
            &&& init[i].op_call_index == occurrences(
                history.drop_last().take(i + 1),
                history.drop_last()[i].category,
                history.drop_last()[i].op_name,
            )
        } by {
            assert(init[i] == records[i]);
            assert(history.drop_last().take(i + 1) =~= history.take(i + 1));
        }
        lemma_records_of(init, history.drop_last(), run_id, category, op_name);
    }
}

/// The operations of an import are those of the calls that it writes: each has
/// its place if and only if it has calls, its count is the number of them, and the
/// counts add up to the number of all calls. The operations are in the order of
/// their first calls.
pub proof fn operations_sum_up_the_calls(
    import: TraceImport,
    category: Seq<char>,
    op_name: Seq<char>,
)
    requires
        import.well_formed(),
    ensures
        ({
            let aggs = import.summary@;
            let slot = slot_of(aggs, category, op_name) as int;
            let calls = records_of(import.taken(), category, op_name);
            &&& slot < aggs.len() <==> calls > 0
            &&& slot < aggs.len() ==> aggs[slot].call_count == calls
            &&& count_sum(aggs) == import.taken().len()
            &&& forall|i: int, j: int|
                0 <= i < j < aggs.len() ==> (#[trigger] aggs[i]).first_call_order < (
                #[trigger] aggs[j]).first_call_order
        }),
{
    let history = import.summary.history();
    let records = import.taken();
    lemma_records_of(records, history, import.run_id, category, op_name);
    summary_counts_the_calls_of_each(history, category, op_name);
    summary_counts_every_call(history);
    assert forall|a: int, b: int| 0 <= a < b < history.len() implies (
    #[trigger] history[a]).call_order < (#[trigger] history[b]).call_order by {
        assert(is_counted(records[a], history[a]));
        assert(is_counted(records[b], history[b]));
    }
    summary_is_in_the_order_of_first_calls(history);
}

/// The calls that were put aside are to be written as soon as there are as many as
/// asked for, or one where less is asked for. Progress is told whenever as many calls
/// more were taken as asked for, and never where none is asked for.
pub proof fn batches_and_progress_come_as_asked(
    import: TraceImport,
    before: TraceImport,
    event: EventView,
    times: EventTimes,
    wanted: bool,
    accepted: Accepted,
)
    requires
        before.well_formed(),
        import.has_accepted(before, event, times, wanted, Some(accepted)),
    ensures
        accepted.flush <==> import.batch@.len() >= 1 && import.batch@.len() >= before.batch_size,
        import.batch@.len() == before.batch@.len() + 1,
        accepted.progress is Some <==> before.progress_interval > 0
            && import.summary.call_total() % (before.progress_interval as int) == 0,
        accepted.progress is Some ==> accepted.progress->0@ == "run "@ + int_text(
            before.run_id as int,
        ) + ": imported "@ + int_text(import.summary.call_total()) + " GPU calls, decoded "@
            + int_text(before.decoded_events as int) + " events"@,
{
    assert(record_views(import.batch@).len() == record_views(before.batch@).len() + 1);
}

/// What an import of a trace writes of a call and what it counts of it are the same:
/// its times, its operation and its occupancy.
pub proof fn calls_are_counted_as_they_are_written(import: TraceImport, i: int)
    requires
        import.well_formed(),
        0 <= i < import.taken().len(),
    ensures
        import.taken().len() == import.summary.history().len(),
        ({
            let record = import.taken()[i];
            let call = import.summary.history()[i];
            &&& record.call_order == i + 1 && call.call_order == i + 1
            &&& record.category == call.category && record.op_name == call.op_name
            &&& record.device_time_us == call.device_time_us
            &&& record.free_time_us == call.free_time_us
            &&& record.total_time_us == call.total_time_us
            &&& record.occupancy_pct == call.occupancy_pct
            &&& record.run_id == import.run_id
            &&& record.op_call_index == records_of(
                import.taken().take(i + 1),
                record.category,
                record.op_name,
            )
        }),
{
    let records = import.taken();
    let history = import.summary.history();
    let first = records.take(i + 1);
    let calls = history.take(i + 1);
    assert(is_counted(records[i], history[i]));
    assert forall|k: int| 0 <= k < first.len() implies {
        &&& (#[trigger] first[k]).run_id == import.run_id
        &&& is_counted(first[k], calls[k])
        &&& first[k].op_call_index == occurrences(
            calls.take(k + 1),
            calls[k].category,
            calls[k].op_name,
        )
    } by {
        assert(first[k] == records[k]);
        assert(calls.take(k + 1) =~= history.take(k + 1));
    }
    lemma_records_of(first, calls, import.run_id, records[i].category, records[i].op_name);
}

} // verus!
