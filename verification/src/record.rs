//! The rows that an import writes: those of calls, and those of operations.
use vstd::prelude::*;

use crate::db::{
    call_column_names, call_columns, summary_column_names, summary_columns,
};
use crate::measure::Measure;
use crate::query::{
    insert, insert_sql, insertion_places, lemma_column_names_plain, number_param,
    number_value, param_views, placeholders, text_param, text_value, update_run,
    update_run_statement, SqlParam, SqlValue, Statement,
};
use crate::summary::{occurrences, AggView, CallFacts, Summary, SummaryAgg};
use crate::text::{as_str, opt_view};

verus! {

/// A call to be written.
#[derive(Debug)]
pub struct CallRecord {
    pub run_id: i64,
    pub call_order: i64,
    pub op_call_index: i64,
    pub category: String,
    pub op_name: String,
    pub device_time_us: Measure,
    pub occupancy_pct: Option<Measure>,
    pub blocks_per_sm: Option<Measure>,
    pub warps_per_sm: Option<Measure>,
    pub shared_memory: Option<Measure>,
    pub grid: Option<String>,
    pub block: Option<String>,
    pub free_time_us: Measure,
    pub total_time_us: Measure,
    pub start_ts_us: Option<Measure>,
    pub end_ts_us: Option<Measure>,
    pub device: String,
    pub stream: String,
    pub pid: String,
    pub tid: String,
    pub correlation: String,
    pub external_id: String,
}

/// What a call to be written is.
pub struct RecordView {
    pub run_id: i64,
    pub call_order: i64,
    pub op_call_index: i64,
    pub category: Seq<char>,
    pub op_name: Seq<char>,
    pub device_time_us: Measure,
    pub occupancy_pct: Option<Measure>,
    pub blocks_per_sm: Option<Measure>,
    pub warps_per_sm: Option<Measure>,
    pub shared_memory: Option<Measure>,
    pub grid: Option<Seq<char>>,
    pub block: Option<Seq<char>>,
    pub free_time_us: Measure,
    pub total_time_us: Measure,
    pub start_ts_us: Option<Measure>,
    pub end_ts_us: Option<Measure>,
    pub device: Seq<char>,
    pub stream: Seq<char>,
    pub pid: Seq<char>,
    pub tid: Seq<char>,
    pub correlation: Seq<char>,
    pub external_id: Seq<char>,
}

impl View for CallRecord {
    type V = RecordView;

    open spec fn view(&self) -> RecordView {
        RecordView {
            run_id: self.run_id,
            call_order: self.call_order,
            op_call_index: self.op_call_index,
            category: self.category@,
            op_name: self.op_name@,
            device_time_us: self.device_time_us,
            occupancy_pct: self.occupancy_pct,
            blocks_per_sm: self.blocks_per_sm,
            warps_per_sm: self.warps_per_sm,
            shared_memory: self.shared_memory,
            grid: opt_view(self.grid),
            block: opt_view(self.block),
            free_time_us: self.free_time_us,
            total_time_us: self.total_time_us,
            start_ts_us: self.start_ts_us,
            end_ts_us: self.end_ts_us,
            device: self.device@,
            stream: self.stream@,
            pid: self.pid@,
            tid: self.tid@,
            correlation: self.correlation@,
            external_id: self.external_id@,
        }
    }
}

/// What calls to be written are.
pub open spec fn record_views(records: Seq<CallRecord>) -> Seq<RecordView> {
    records.map_values(|r: CallRecord| r@)
}

/// The values of the columns of a call.
pub open spec fn record_params(record: RecordView) -> Seq<SqlParam> {
    seq![
        SqlParam::Integer(record.run_id),
        SqlParam::Integer(record.call_order),
        SqlParam::Integer(record.op_call_index),
        SqlParam::Text(record.category),
        SqlParam::Text(record.op_name),
        SqlParam::Number(record.device_time_us),
        number_param(record.occupancy_pct),
        number_param(record.blocks_per_sm),
        number_param(record.warps_per_sm),
        number_param(record.shared_memory),
        text_param(record.grid),
        text_param(record.block),
        SqlParam::Number(record.free_time_us),
        SqlParam::Number(record.total_time_us),
        number_param(record.start_ts_us),
        number_param(record.end_ts_us),
        SqlParam::Text(record.device),
        SqlParam::Text(record.stream),
        SqlParam::Text(record.pid),
        SqlParam::Text(record.tid),
        SqlParam::Text(record.correlation),
        SqlParam::Text(record.external_id),
    ]
}

impl CallRecord {
    /// The values of the columns of this call.
    pub fn params(&self) -> (r: Vec<SqlValue>)
        ensures
            param_views(r@) == record_params(self@),
    {
        let r: Vec<SqlValue> = vec![
            SqlValue::Integer(self.run_id),
            SqlValue::Integer(self.call_order),
            SqlValue::Integer(self.op_call_index),
            SqlValue::Text(self.category.clone()),
            SqlValue::Text(self.op_name.clone()),
            SqlValue::Number(self.device_time_us),
            number_value(self.occupancy_pct),
            number_value(self.blocks_per_sm),
            number_value(self.warps_per_sm),
            number_value(self.shared_memory),
            text_value(as_str(&self.grid)),
            text_value(as_str(&self.block)),
            SqlValue::Number(self.free_time_us),
            SqlValue::Number(self.total_time_us),
            number_value(self.start_ts_us),
            number_value(self.end_ts_us),
            SqlValue::Text(self.device.clone()),
            SqlValue::Text(self.stream.clone()),
            SqlValue::Text(self.pid.clone()),
            SqlValue::Text(self.tid.clone()),
            SqlValue::Text(self.correlation.clone()),
            SqlValue::Text(self.external_id.clone()),
        ];
        assert(param_views(r@) =~= record_params(self@));
        r
    }
}

/// Whether a call is written as it was counted.
pub open spec fn is_counted(record: RecordView, call: CallFacts) -> bool {
    &&& record.call_order == call.call_order
    &&& record.category == call.category
    &&& record.op_name == call.op_name
    &&& record.device_time_us == call.device_time_us
    &&& record.free_time_us == call.free_time_us
    &&& record.occupancy_pct == call.occupancy_pct
}

/// Whether calls of a run are written as they were counted, each with its number
/// among those of its operation.
pub open spec fn accounts_for(
    records: Seq<RecordView>,
    history: Seq<CallFacts>,
    run_id: i64,
) -> bool {
    &&& records.len() == history.len()
    &&& forall|i: int|
        0 <= i < records.len() ==> {
            &&& (#[trigger] records[i]).run_id == run_id
            &&& is_counted(records[i], history[i])
            &&& records[i].op_call_index == occurrences(
                history.take(i + 1),
                history[i].category,
                history[i].op_name,
            )
        }
}

pub(crate) proof fn lemma_account_goes_on(
    records: Seq<RecordView>,
    history: Seq<CallFacts>,
    run_id: i64,
    record: RecordView,
    call: CallFacts,
)
    requires
        accounts_for(records, history, run_id),
        record.run_id == run_id,
        is_counted(record, call),
        record.op_call_index == occurrences(history.push(call), call.category, call.op_name),
    ensures
        accounts_for(records.push(record), history.push(call), run_id),
{
    let all = history.push(call);
    let written = records.push(record);
    assert(all.take(all.len() as int) =~= all);
    assert forall|i: int| 0 <= i < written.len() implies {
        &&& (#[trigger] written[i]).run_id == run_id
        &&& is_counted(written[i], all[i])
        &&& written[i].op_call_index == occurrences(
            all.take(i + 1),
            all[i].category,
            all[i].op_name,
        )
    } by {
        if i < records.len() {
            assert(written[i] == records[i]);
            assert(all.take(i + 1) =~= history.take(i + 1));
        }
    }
}

/// One statement to be run for each of several rows of values.
#[derive(Debug)]
pub struct Batch {
    pub sql: String,
    pub rows: Vec<Vec<SqlValue>>,
}

/// What rows of values are.
pub open spec fn row_views(rows: Seq<Vec<SqlValue>>) -> Seq<Seq<SqlParam>> {
    rows.map_values(|r: Vec<SqlValue>| param_views(r@))
}

/// The values of the columns of calls.
pub open spec fn records_params(records: Seq<RecordView>) -> Seq<Seq<SqlParam>> {
    records.map_values(|r: RecordView| record_params(r))
}

/// What adds a call.
pub open spec fn insert_call_sql() -> Seq<char> {
    insert_sql("gpu_calls"@, call_column_names(), ","@)
}

/// What adds the row of an operation.
pub open spec fn insert_summary_sql() -> Seq<char> {
    insert_sql("op_summary"@, summary_column_names(), ","@)
}

/// Whether a batch writes calls, or there is none because there are no calls.
pub open spec fn writes_calls(batch: Option<Batch>, records: Seq<RecordView>) -> bool {
    match batch {
        None => records.len() == 0,
        Some(batch) => {
            &&& records.len() > 0
            &&& batch.sql@ == insert_call_sql()
            &&& row_views(batch.rows@) == records_params(records)
        },
    }
}

/// Empties a batch of calls into what writes them. An empty one writes nothing.
pub fn flush_calls(batch: &mut Vec<CallRecord>) -> (r: Option<Batch>)
    ensures
        final(batch)@ == Seq::<CallRecord>::empty(),
        match r {
            None => old(batch)@.len() == 0,
            Some(written) => {
                &&& old(batch)@.len() > 0
                &&& written.sql@ == insert_call_sql()
                &&& row_views(written.rows@) == records_params(record_views(old(batch)@))
            },
        },
        writes_calls(r, record_views(old(batch)@)),
{
    if batch.len() == 0 {
        assert(batch@ =~= Seq::<CallRecord>::empty());
        return None;
    }
    let mut rows: Vec<Vec<SqlValue>> = Vec::new();
    let ghost records = record_views(batch@);
    let mut i: usize = 0;
    while i < batch.len()
        invariant
            i <= batch@.len(),
            batch@ == old(batch)@,
            records == record_views(batch@),
            row_views(rows@) == records_params(records).take(i as int),
        decreases batch@.len() - i,
    {
        let ghost before = rows@;
        let row = batch[i].params();
        rows.push(row);
        assert(row_views(rows@) =~= row_views(before).push(param_views(row@)));
        i += 1;
        assert(records_params(records).take(i as int) =~= records_params(records).take(
            i - 1,
        ).push(record_params(records[i - 1])));
    }
    assert(records_params(records).take(batch@.len() as int) =~= records_params(records));
    batch.clear();
    let sql = insert("gpu_calls", &call_columns(), ",");
    Some(Batch { sql, rows })
}

/// What arithmetic says of the calls of one operation: the sums of their times,
/// and the quotients of the sums and the numbers of calls.
#[derive(Clone, Copy, Debug)]
pub struct Sums {
    pub total_device_time_us: Measure,
    pub total_free_time_us: Measure,
    pub total_time_us: Measure,
    pub mean_device_time_us: Measure,
    pub mean_free_time_us: Measure,
    pub mean_time_us: Measure,
    pub mean_occupancy_pct: Measure,
}

/// A quotient, or zero where there are no calls.
pub open spec fn average(agg: AggView, quotient: Measure) -> SqlParam {
    SqlParam::Number(
        if agg.call_count == 0 {
            Measure { bits: 0 }
        } else {
            quotient
        },
    )
}

/// A quantity of the occupancy, or nothing where no call has one.
pub open spec fn occupancy(agg: AggView, quantity: Measure) -> SqlParam {
    if agg.occupancy_count > 0 {
        SqlParam::Number(quantity)
    } else {
        SqlParam::Null
    }
}

/// The values of the columns of an operation.
pub open spec fn summary_params(run_id: i64, agg: AggView, sums: Sums) -> Seq<SqlParam> {
    seq![
        SqlParam::Integer(run_id),
        SqlParam::Integer(agg.first_call_order),
        SqlParam::Text(agg.category),
        SqlParam::Text(agg.op_name),
        SqlParam::Integer(agg.call_count as i64),
        SqlParam::Number(sums.total_device_time_us),
        SqlParam::Number(sums.total_free_time_us),
        SqlParam::Number(sums.total_time_us),
        average(agg, sums.mean_device_time_us),
        average(agg, sums.mean_free_time_us),
        average(agg, sums.mean_time_us),
        occupancy(agg, sums.mean_occupancy_pct),
        occupancy(agg, agg.min_occupancy_pct),
        occupancy(agg, agg.max_occupancy_pct),
        SqlParam::Number(agg.min_device_time_us),
        SqlParam::Number(agg.min_free_time_us),
        SqlParam::Number(agg.min_time_us),
        SqlParam::Number(agg.max_device_time_us),
        SqlParam::Number(agg.max_free_time_us),
        SqlParam::Number(agg.max_time_us),
    ]
}

/// The values of the columns of operations.
pub open spec fn summaries_params(
    run_id: i64,
    aggs: Seq<AggView>,
    sums: Seq<Sums>,
) -> Seq<Seq<SqlParam>> {
    Seq::new(aggs.len(), |i: int| summary_params(run_id, aggs[i], sums[i]))
}

impl SummaryAgg {
    /// The values of the columns of this operation.
    pub fn params(&self, run_id: i64, sums: &Sums) -> (r: Vec<SqlValue>)
        requires
            self.occupancy_count >= 0,
        ensures
            param_views(r@) == summary_params(run_id, self@, *sums),
    {
        let r: Vec<SqlValue> = vec![
            SqlValue::Integer(run_id),
            SqlValue::Integer(self.first_call_order),
            SqlValue::Text(self.category.clone()),
            SqlValue::Text(self.op_name.clone()),
            SqlValue::Integer(self.call_count),
            SqlValue::Number(sums.total_device_time_us),
            SqlValue::Number(sums.total_free_time_us),
            SqlValue::Number(sums.total_time_us),
            SqlValue::Number(self.avg(sums.mean_device_time_us)),
            SqlValue::Number(self.avg(sums.mean_free_time_us)),
            SqlValue::Number(self.avg(sums.mean_time_us)),
            number_value(self.avg_occupancy_pct(sums.mean_occupancy_pct)),
            number_value(self.min_occupancy_pct()),
            number_value(self.max_occupancy_pct()),
            SqlValue::Number(self.min_device_time_us),
            SqlValue::Number(self.min_free_time_us),
            SqlValue::Number(self.min_time_us),
            SqlValue::Number(self.max_device_time_us),
            SqlValue::Number(self.max_free_time_us),
            SqlValue::Number(self.max_time_us),
        ];
        assert(param_views(r@) =~= summary_params(run_id, self@, *sums));
        r
    }
}

/// What ends an import: the rows of its operations, and the counts of its run.
#[derive(Debug)]
pub struct Ending {
    pub operations: Batch,
    pub run: Statement,
}

/// Whether an ending is that of an import whose calls have all been counted.
pub open spec fn is_ending(ending: Ending, run_id: i64, summary: Summary, sums: Seq<Sums>) -> bool {
    &&& ending.operations.sql@ == insert_summary_sql()
    &&& row_views(ending.operations.rows@) == summaries_params(run_id, summary@, sums)
    &&& ending.run@ == update_run_statement(
        run_id,
        summary.call_total() as i64,
        summary@.len() as i64,
    )
}

/// What ends an import whose calls have all been counted.
pub fn finalize_run(run_id: i64, summary: &Summary, sums: &Vec<Sums>) -> (r: Ending)
    requires
        summary.well_formed(),
        sums@.len() == summary@.len(),
    ensures
        r.operations.sql@ == insert_summary_sql(),
        row_views(r.operations.rows@) == summaries_params(run_id, summary@, sums@),
        r.run@ == update_run_statement(
            run_id,
            summary.call_total() as i64,
            summary@.len() as i64,
        ),
        is_ending(r, run_id, *summary, sums@),
{
    let mut rows: Vec<Vec<SqlValue>> = Vec::new();
    let ghost all = summaries_params(run_id, summary@, sums@);
    let mut i: usize = 0;
    while i < summary.len()
        invariant
            i <= summary@.len(),
            summary.well_formed(),
            sums@.len() == summary@.len(),
            all == summaries_params(run_id, summary@, sums@),
            row_views(rows@) == all.take(i as int),
        decreases summary@.len() - i,
    {
        let ghost before = rows@;
        let agg = summary.get(i);
        assert(summary@[i as int].occupancy_count >= 0);
        let row = agg.params(run_id, &sums[i]);
        rows.push(row);
        assert(row_views(rows@) =~= row_views(before).push(param_views(row@)));
        i += 1;
        assert(all.take(i as int) =~= all.take(i - 1).push(all[i - 1]));
    }
    assert(all.take(summary@.len() as int) =~= all);
    let sql = insert("op_summary", &summary_columns(), ",");
    Ending {
        operations: Batch { sql, rows },
        run: update_run(run_id, summary.total(), summary.len() as i64),
    }
}

/// What adds a call has a value for each placeholder, and so has what adds the
/// row of an operation.
pub proof fn rows_bind_each_place(record: RecordView, run_id: i64, agg: AggView, sums: Sums)
    ensures
        placeholders(insert_call_sql()) == record_params(record).len(),
        placeholders(insert_summary_sql()) == summary_params(run_id, agg, sums).len(),
{
    lemma_column_names_plain();
    reveal_strlit("gpu_calls");
    reveal_strlit("op_summary");
    reveal_strlit(",");
    insertion_places("gpu_calls"@, call_column_names(), ","@);
    insertion_places("op_summary"@, summary_column_names(), ","@);
}

} // verus!
