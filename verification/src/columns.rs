//! What is written under the names of columns.
use vstd::prelude::*;

use crate::calls_csv::CsvImport;
use crate::db::{call_column_names, summary_column_names};
use crate::importer::{is_result_of, ImportResult, TraceImport};
use crate::measure::Measure;
use crate::query::{
    add_column_sql, insert_run_statement, insert_sql, later_call_columns, later_summary_columns,
    marks, param_views, run_column_names, update_run_statement, NewRun, SqlParam,
};
use crate::record::{
    insert_call_sql, insert_summary_sql, is_ending, record_params, row_views, summary_params,
    writes_calls, Batch, Ending, RecordView, Sums,
};
use crate::summary::{AggView, Summary};
use crate::text::join_texts;

verus! {

/// What stands for a quantity that may be missing.
pub open spec fn opt_number(x: Option<Measure>) -> SqlParam {
    match x {
        Some(x) => SqlParam::Number(x),
        None => SqlParam::Null,
    }
}

/// What stands for a text that may be missing.
pub open spec fn opt_text(text: Option<Seq<char>>) -> SqlParam {
    match text {
        Some(text) => SqlParam::Text(text),
        None => SqlParam::Null,
    }
}

/// Whether values are written under names so that a name has a value: the name is
/// there, and wherever it is there, the value stands at its place.
pub open spec fn is_written(
    names: Seq<Seq<char>>,
    values: Seq<SqlParam>,
    name: Seq<char>,
    value: SqlParam,
) -> bool {
    &&& names.contains(name)
    &&& names.len() == values.len()
    &&& forall|i: int| 0 <= i < names.len() && #[trigger] names[i] == name ==> values[i] == value
}

/// What is written of a call stands under the names of what it is.
pub proof fn calls_are_written_under_their_names(record: RecordView)
    ensures
        ({
            let names = call_column_names();
            let values = record_params(record);
            &&& names.len() == 22
            &&& is_written(names, values, "run_id"@, SqlParam::Integer(record.run_id))
            &&& is_written(names, values, "call_order"@, SqlParam::Integer(record.call_order))
            &&& is_written(names, values, "op_call_index"@, SqlParam::Integer(record.op_call_index))
            &&& is_written(names, values, "category"@, SqlParam::Text(record.category))
            &&& is_written(names, values, "op_name"@, SqlParam::Text(record.op_name))
            &&& is_written(names, values, "device_time_us"@, SqlParam::Number(record.device_time_us))
            &&& is_written(names, values, "occupancy_pct"@, opt_number(record.occupancy_pct))
            &&& is_written(names, values, "blocks_per_sm"@, opt_number(record.blocks_per_sm))
            &&& is_written(names, values, "warps_per_sm"@, opt_number(record.warps_per_sm))
            &&& is_written(names, values, "shared_memory"@, opt_number(record.shared_memory))
            &&& is_written(names, values, "grid"@, opt_text(record.grid))
            &&& is_written(names, values, "block"@, opt_text(record.block))
            &&& is_written(names, values, "free_time_us"@, SqlParam::Number(record.free_time_us))
            &&& is_written(names, values, "total_time_us"@, SqlParam::Number(record.total_time_us))
            &&& is_written(names, values, "start_ts_us"@, opt_number(record.start_ts_us))
            &&& is_written(names, values, "end_ts_us"@, opt_number(record.end_ts_us))
            &&& is_written(names, values, "device"@, SqlParam::Text(record.device))
            &&& is_written(names, values, "stream"@, SqlParam::Text(record.stream))
            &&& is_written(names, values, "pid"@, SqlParam::Text(record.pid))
            &&& is_written(names, values, "tid"@, SqlParam::Text(record.tid))
            &&& is_written(names, values, "correlation"@, SqlParam::Text(record.correlation))
            &&& is_written(names, values, "external_id"@, SqlParam::Text(record.external_id))
        }),
{
    reveal_strlit("block");
    reveal_strlit("blocks_per_sm");
    reveal_strlit("call_order");
    reveal_strlit("category");
    reveal_strlit("correlation");
    reveal_strlit("device");
    reveal_strlit("device_time_us");
    reveal_strlit("end_ts_us");
    reveal_strlit("external_id");
    reveal_strlit("free_time_us");
    reveal_strlit("grid");
    reveal_strlit("occupancy_pct");
    reveal_strlit("op_call_index");
    reveal_strlit("op_name");
    reveal_strlit("pid");
    reveal_strlit("run_id");
    reveal_strlit("shared_memory");
    reveal_strlit("start_ts_us");
    reveal_strlit("stream");
    reveal_strlit("tid");
    reveal_strlit("total_time_us");
    reveal_strlit("warps_per_sm");
    assert("block"@.len() == 5);
    assert("blocks_per_sm"@.len() == 13);
    assert("call_order"@.len() == 10);
    assert("category"@.len() == 8);
    assert("correlation"@.len() == 11);
    assert("device"@.len() == 6);
    assert("device_time_us"@.len() == 14);
    assert("end_ts_us"@.len() == 9);
    assert("external_id"@.len() == 11);
    assert("free_time_us"@.len() == 12);
    assert("grid"@.len() == 4);
    assert("occupancy_pct"@.len() == 13);
    assert("op_call_index"@.len() == 13);
    assert("op_name"@.len() == 7);
    assert("pid"@.len() == 3);
    assert("run_id"@.len() == 6);
    assert("shared_memory"@.len() == 13);
    assert("start_ts_us"@.len() == 11);
    assert("stream"@.len() == 6);
    assert("tid"@.len() == 3);
    assert("total_time_us"@.len() == 13);
    assert("warps_per_sm"@.len() == 12);
    assert("blocks_per_sm"@[0] == 'b');
    assert("occupancy_pct"@[0] == 'o');
    assert("op_call_index"@[0] == 'o');
    assert("shared_memory"@[0] == 's');
    assert("total_time_us"@[0] == 't');
    assert("correlation"@[0] == 'c');
    assert("external_id"@[0] == 'e');
    assert("start_ts_us"@[0] == 's');
    assert("device"@[0] == 'd');
    assert("run_id"@[0] == 'r');
    assert("stream"@[0] == 's');
    assert("free_time_us"@[0] == 'f');
    assert("warps_per_sm"@[0] == 'w');
    assert("occupancy_pct"@[1] == 'c');
    assert("op_call_index"@[1] == 'p');
    assert("pid"@[0] == 'p');
    assert("tid"@[0] == 't');
    let names = call_column_names();
    assert(names[0] == "run_id"@);
    assert(names[1] == "call_order"@);
    assert(names[2] == "op_call_index"@);
    assert(names[3] == "category"@);
    assert(names[4] == "op_name"@);
    assert(names[5] == "device_time_us"@);
    assert(names[6] == "occupancy_pct"@);
    assert(names[7] == "blocks_per_sm"@);
    assert(names[8] == "warps_per_sm"@);
    assert(names[9] == "shared_memory"@);
    assert(names[10] == "grid"@);
    assert(names[11] == "block"@);
    assert(names[12] == "free_time_us"@);
    assert(names[13] == "total_time_us"@);
    assert(names[14] == "start_ts_us"@);
    assert(names[15] == "end_ts_us"@);
    assert(names[16] == "device"@);
    assert(names[17] == "stream"@);
    assert(names[18] == "pid"@);
    assert(names[19] == "tid"@);
    assert(names[20] == "correlation"@);
    assert(names[21] == "external_id"@);
}

/// A quantity of the occupancies of an operation, where a call of it has one.
pub open spec fn if_any(agg: AggView, quantity: Measure) -> SqlParam {
    if agg.occupancy_count > 0 {
        SqlParam::Number(quantity)
    } else {
        SqlParam::Null
    }
}

/// What is written of an operation that has calls stands under the names of what it
/// is. What is said of occupancies is missing where no call has one.
pub proof fn operations_are_written_under_their_names(run_id: i64, agg: AggView, sums: Sums)
    requires
        agg.call_count > 0,
    ensures
        ({
            let names = summary_column_names();
            let values = summary_params(run_id, agg, sums);
            &&& names.len() == 20
            &&& is_written(names, values, "run_id"@, SqlParam::Integer(run_id))
            &&& is_written(names, values, "first_call_order"@, SqlParam::Integer(agg.first_call_order))
            &&& is_written(names, values, "category"@, SqlParam::Text(agg.category))
            &&& is_written(names, values, "op_name"@, SqlParam::Text(agg.op_name))
            &&& is_written(names, values, "call_count"@, SqlParam::Integer(agg.call_count as i64))
            &&& is_written(names, values, "total_device_time_us"@, SqlParam::Number(sums.total_device_time_us))
            &&& is_written(names, values, "total_free_time_us"@, SqlParam::Number(sums.total_free_time_us))
            &&& is_written(names, values, "total_time_us"@, SqlParam::Number(sums.total_time_us))
            &&& is_written(names, values, "avg_device_time_us"@, SqlParam::Number(sums.mean_device_time_us))
            &&& is_written(names, values, "avg_free_time_us"@, SqlParam::Number(sums.mean_free_time_us))
            &&& is_written(names, values, "avg_time_us"@, SqlParam::Number(sums.mean_time_us))
            &&& is_written(names, values, "avg_occupancy_pct"@, if_any(agg, sums.mean_occupancy_pct))
            &&& is_written(names, values, "min_occupancy_pct"@, if_any(agg, agg.min_occupancy_pct))
            &&& is_written(names, values, "max_occupancy_pct"@, if_any(agg, agg.max_occupancy_pct))
            &&& is_written(names, values, "min_device_time_us"@, SqlParam::Number(agg.min_device_time_us))
            &&& is_written(names, values, "min_free_time_us"@, SqlParam::Number(agg.min_free_time_us))
            &&& is_written(names, values, "min_time_us"@, SqlParam::Number(agg.min_time_us))
            &&& is_written(names, values, "max_device_time_us"@, SqlParam::Number(agg.max_device_time_us))
            &&& is_written(names, values, "max_free_time_us"@, SqlParam::Number(agg.max_free_time_us))
            &&& is_written(names, values, "max_time_us"@, SqlParam::Number(agg.max_time_us))
        }),
{
    reveal_strlit("avg_device_time_us");
    reveal_strlit("avg_free_time_us");
    reveal_strlit("avg_occupancy_pct");
    reveal_strlit("avg_time_us");
    reveal_strlit("call_count");
    reveal_strlit("category");
    reveal_strlit("first_call_order");
    reveal_strlit("max_device_time_us");
    reveal_strlit("max_free_time_us");
    reveal_strlit("max_occupancy_pct");
    reveal_strlit("max_time_us");
    reveal_strlit("min_device_time_us");
    reveal_strlit("min_free_time_us");
    reveal_strlit("min_occupancy_pct");
    reveal_strlit("min_time_us");
    reveal_strlit("op_name");
    reveal_strlit("run_id");
    reveal_strlit("total_device_time_us");
    reveal_strlit("total_free_time_us");
    reveal_strlit("total_time_us");
    assert("avg_device_time_us"@.len() == 18);
    assert("avg_free_time_us"@.len() == 16);
    assert("avg_occupancy_pct"@.len() == 17);
    assert("avg_time_us"@.len() == 11);
    assert("call_count"@.len() == 10);
    assert("category"@.len() == 8);
    assert("first_call_order"@.len() == 16);
    assert("max_device_time_us"@.len() == 18);
    assert("max_free_time_us"@.len() == 16);
    assert("max_occupancy_pct"@.len() == 17);
    assert("max_time_us"@.len() == 11);
    assert("min_device_time_us"@.len() == 18);
    assert("min_free_time_us"@.len() == 16);
    assert("min_occupancy_pct"@.len() == 17);
    assert("min_time_us"@.len() == 11);
    assert("op_name"@.len() == 7);
    assert("run_id"@.len() == 6);
    assert("total_device_time_us"@.len() == 20);
    assert("total_free_time_us"@.len() == 18);
    assert("total_time_us"@.len() == 13);
    assert("avg_device_time_us"@[0] == 'a');
    assert("max_device_time_us"@[0] == 'm');
    assert("min_device_time_us"@[0] == 'm');
    assert("total_free_time_us"@[0] == 't');
    assert("avg_free_time_us"@[0] == 'a');
    assert("first_call_order"@[0] == 'f');
    assert("max_free_time_us"@[0] == 'm');
    assert("min_free_time_us"@[0] == 'm');
    assert("avg_occupancy_pct"@[0] == 'a');
    assert("max_occupancy_pct"@[0] == 'm');
    assert("min_occupancy_pct"@[0] == 'm');
    assert("avg_time_us"@[0] == 'a');
    assert("max_time_us"@[0] == 'm');
    assert("min_time_us"@[0] == 'm');
    assert("max_device_time_us"@[1] == 'a');
    assert("min_device_time_us"@[1] == 'i');
    assert("max_free_time_us"@[1] == 'a');
    assert("min_free_time_us"@[1] == 'i');
    assert("max_occupancy_pct"@[1] == 'a');
    assert("min_occupancy_pct"@[1] == 'i');
    assert("max_time_us"@[1] == 'a');
    assert("min_time_us"@[1] == 'i');
    let names = summary_column_names();
    assert(names[0] == "run_id"@);
    assert(names[1] == "first_call_order"@);
    assert(names[2] == "category"@);
    assert(names[3] == "op_name"@);
    assert(names[4] == "call_count"@);
    assert(names[5] == "total_device_time_us"@);
    assert(names[6] == "total_free_time_us"@);
    assert(names[7] == "total_time_us"@);
    assert(names[8] == "avg_device_time_us"@);
    assert(names[9] == "avg_free_time_us"@);
    assert(names[10] == "avg_time_us"@);
    assert(names[11] == "avg_occupancy_pct"@);
    assert(names[12] == "min_occupancy_pct"@);
    assert(names[13] == "max_occupancy_pct"@);
    assert(names[14] == "min_device_time_us"@);
    assert(names[15] == "min_free_time_us"@);
    assert(names[16] == "min_time_us"@);
    assert(names[17] == "max_device_time_us"@);
    assert(names[18] == "max_free_time_us"@);
    assert(names[19] == "max_time_us"@);
}

/// What is written of a run stands under the names of what it is.
pub proof fn runs_are_written_under_their_names(run: NewRun)
    ensures
        ({
            let names = run_column_names();
            let values = insert_run_statement(run).params;
            &&& names.len() == 10
            &&& is_written(names, values, "label"@, match run.label {
                Some(label) => SqlParam::Text(label@),
                None => SqlParam::Null,
            })
            &&& is_written(names, values, "source_type"@, SqlParam::Text(run.source_type@))
            &&& is_written(names, values, "source_path"@, SqlParam::Text(run.source_path@))
            &&& is_written(names, values, "source_size_bytes"@, match run.source_size_bytes {
                Some(size) => SqlParam::Integer(size),
                None => SqlParam::Null,
            })
            &&& is_written(names, values, "imported_at"@, SqlParam::Text(run.imported_at@))
            &&& is_written(names, values, "app_version"@, SqlParam::Text(run.app_version@))
            &&& is_written(names, values, "categories"@, SqlParam::Text(run.categories@))
            &&& is_written(names, values, "include_name"@, match run.include_name {
                Some(pattern) => SqlParam::Text(pattern@),
                None => SqlParam::Null,
            })
            &&& is_written(names, values, "exclude_name"@, match run.exclude_name {
                Some(pattern) => SqlParam::Text(pattern@),
                None => SqlParam::Null,
            })
            &&& is_written(names, values, "min_device_time_us"@, SqlParam::Number(run.min_device_time_us))
        }),
{
    reveal_strlit("app_version");
    reveal_strlit("categories");
    reveal_strlit("exclude_name");
    reveal_strlit("imported_at");
    reveal_strlit("include_name");
    reveal_strlit("label");
    reveal_strlit("min_device_time_us");
    reveal_strlit("source_path");
    reveal_strlit("source_size_bytes");
    reveal_strlit("source_type");
    assert("app_version"@.len() == 11);
    assert("categories"@.len() == 10);
    assert("exclude_name"@.len() == 12);
    assert("imported_at"@.len() == 11);
    assert("include_name"@.len() == 12);
    assert("label"@.len() == 5);
    assert("min_device_time_us"@.len() == 18);
    assert("source_path"@.len() == 11);
    assert("source_size_bytes"@.len() == 17);
    assert("source_type"@.len() == 11);
    assert("app_version"@[0] == 'a');
    assert("imported_at"@[0] == 'i');
    assert("source_path"@[0] == 's');
    assert("source_type"@[0] == 's');
    assert("exclude_name"@[0] == 'e');
    assert("include_name"@[0] == 'i');
    assert("source_path"@[7] == 'p');
    assert("source_type"@[7] == 't');
    let names = run_column_names();
    assert(names[0] == "label"@);
    assert(names[1] == "source_type"@);
    assert(names[2] == "source_path"@);
    assert(names[3] == "source_size_bytes"@);
    assert(names[4] == "imported_at"@);
    assert(names[5] == "app_version"@);
    assert(names[6] == "categories"@);
    assert(names[7] == "include_name"@);
    assert(names[8] == "exclude_name"@);
    assert(names[9] == "min_device_time_us"@);
}

/// The counts of a run are written under their names, and in the row of that run
/// alone.
pub proof fn counts_are_written_to_their_run(run_id: i64, total_calls: i64, unique_ops: i64)
    ensures
        ({
            let update = update_run_statement(run_id, total_calls, unique_ops);
            &&& update.sql == "UPDATE runs SET "@ + "total_calls"@ + " = ?, "@ + "unique_ops"@
                + " = ?"@ + " WHERE id = ?"@
            &&& update.params == seq![
                SqlParam::Integer(total_calls),
                SqlParam::Integer(unique_ops),
                SqlParam::Integer(run_id),
            ]
        }),
{
    let update = update_run_statement(run_id, total_calls, unique_ops);
    reveal_strlit("UPDATE runs SET total_calls = ?, unique_ops = ? WHERE id = ?");
    reveal_strlit("UPDATE runs SET ");
    reveal_strlit("total_calls");
    reveal_strlit(" = ?, ");
    reveal_strlit("unique_ops");
    reveal_strlit(" = ?");
    reveal_strlit(" WHERE id = ?");
    assert(update.sql =~= "UPDATE runs SET "@ + "total_calls"@ + " = ?, "@ + "unique_ops"@
        + " = ?"@ + " WHERE id = ?"@);
}

/// The columns that early databases lack are added to the tables of calls and of
/// operations: numbers and texts, each under the name by which it is written and read.
pub proof fn late_columns_are_columns()
    ensures
        later_call_columns().len() == 6,
        later_summary_columns().len() == 3,
        later_call_columns().contains(("occupancy_pct"@, "REAL"@)),
        call_column_names().contains("occupancy_pct"@),
        later_call_columns().contains(("blocks_per_sm"@, "REAL"@)),
        call_column_names().contains("blocks_per_sm"@),
        later_call_columns().contains(("warps_per_sm"@, "REAL"@)),
        call_column_names().contains("warps_per_sm"@),
        later_call_columns().contains(("shared_memory"@, "REAL"@)),
        call_column_names().contains("shared_memory"@),
        later_call_columns().contains(("grid"@, "TEXT"@)),
        call_column_names().contains("grid"@),
        later_call_columns().contains(("block"@, "TEXT"@)),
        call_column_names().contains("block"@),
        later_summary_columns().contains(("avg_occupancy_pct"@, "REAL"@)),
        summary_column_names().contains("avg_occupancy_pct"@),
        later_summary_columns().contains(("min_occupancy_pct"@, "REAL"@)),
        summary_column_names().contains("min_occupancy_pct"@),
        later_summary_columns().contains(("max_occupancy_pct"@, "REAL"@)),
        summary_column_names().contains("max_occupancy_pct"@),
{
    let calls = call_column_names();
    let ops = summary_column_names();
    let later_calls = later_call_columns();
    let later_ops = later_summary_columns();
    assert(later_calls[0] == ("occupancy_pct"@, "REAL"@));
    assert(calls[6] == "occupancy_pct"@);
    assert(later_calls[1] == ("blocks_per_sm"@, "REAL"@));
    assert(calls[7] == "blocks_per_sm"@);
    assert(later_calls[2] == ("warps_per_sm"@, "REAL"@));
    assert(calls[8] == "warps_per_sm"@);
    assert(later_calls[3] == ("shared_memory"@, "REAL"@));
    assert(calls[9] == "shared_memory"@);
    assert(later_calls[4] == ("grid"@, "TEXT"@));
    assert(calls[10] == "grid"@);
    assert(later_calls[5] == ("block"@, "TEXT"@));
    assert(calls[11] == "block"@);
    assert(later_ops[0] == ("avg_occupancy_pct"@, "REAL"@));
    assert(ops[11] == "avg_occupancy_pct"@);
    assert(later_ops[1] == ("min_occupancy_pct"@, "REAL"@));
    assert(ops[12] == "min_occupancy_pct"@);
    assert(later_ops[2] == ("max_occupancy_pct"@, "REAL"@));
    assert(ops[13] == "max_occupancy_pct"@);
}

/// What adds a column to a table names the table, the column and its kind.
pub proof fn columns_are_added_by_name(table: Seq<char>, column: Seq<char>, kind: Seq<char>)
    ensures
        add_column_sql(table, column, kind) == "ALTER TABLE "@ + table + " ADD COLUMN "@ + column
            + seq![' '] + kind + seq![';'],
{
    reveal_strlit(" ");
    reveal_strlit(";");
    assert(" "@ =~= seq![' ']);
    assert(";"@ =~= seq![';']);
}

/// An import ends with a row for each operation that it counted, with the sums of that
/// operation, and writes to its run how many calls and how many operations it has.
pub proof fn endings_write_each_operation(
    ending: Ending,
    run_id: i64,
    summary: Summary,
    sums: Seq<Sums>,
    i: int,
)
    requires
        summary.well_formed(),
        sums.len() == summary@.len(),
        is_ending(ending, run_id, summary, sums),
        0 <= i < summary@.len(),
    ensures
        ending.operations.sql@ == insert_sql("op_summary"@, summary_column_names(), ","@),
        ending.operations.rows@.len() == summary@.len(),
        param_views(ending.operations.rows@[i]@) == summary_params(run_id, summary@[i], sums[i]),
        ending.run@.params == seq![
            SqlParam::Integer(summary.history().len() as i64),
            SqlParam::Integer(summary@.len() as i64),
            SqlParam::Integer(run_id),
        ],
{
    let rows = row_views(ending.operations.rows@);
    assert(rows.len() == ending.operations.rows@.len());
    assert(rows[i] == param_views(ending.operations.rows@[i]@));
}

/// What is handed out to be written has a row for each call, in their order, and in
/// each what the call is. Nothing is handed out where there are no calls.
pub proof fn batches_write_each_call(batch: Option<Batch>, records: Seq<RecordView>, i: int)
    requires
        writes_calls(batch, records),
        0 <= i < records.len(),
    ensures
        batch is Some,
        batch->0.rows@.len() == records.len(),
        param_views(batch->0.rows@[i]@) == record_params(records[i]),
        batch->0.sql@ == insert_sql("gpu_calls"@, call_column_names(), ","@),
{
    let rows = row_views(batch->0.rows@);
    assert(rows.len() == batch->0.rows@.len());
    assert(rows[i] == param_views(batch->0.rows@[i]@));
}

/// The result of an import says how many calls and how many operations it has, in which
/// run and where.
pub proof fn results_count_what_was_taken(
    result: ImportResult,
    db_path: std::path::PathBuf,
    import: TraceImport,
    table: CsvImport,
)
    requires
        import.well_formed(),
        table.well_formed(),
    ensures
        is_result_of(result, db_path, import.run_id, import.summary) ==> {
            &&& result.gpu_calls == import.taken().len()
            &&& result.unique_ops == import.summary@.len()
            &&& result.run_id == import.run_id
            &&& result.db_path == db_path
        },
        is_result_of(result, db_path, table.run_id, table.summary) ==> {
            &&& result.gpu_calls == table.taken().len()
            &&& result.unique_ops == table.summary@.len()
            &&& result.run_id == table.run_id
            &&& result.db_path == db_path
        },
{
}

/// What adds a row names the table and its columns, and has as many values as columns.
/// Runs, calls and operations are added to tables of their own.
pub proof fn insertions_name_table_and_columns(
    table: Seq<char>,
    columns: Seq<Seq<char>>,
    sep: Seq<char>,
    run: NewRun,
)
    ensures
        insert_sql(table, columns, sep) == "INSERT INTO "@ + table + seq![' ', '('] + join_texts(
            columns,
            sep,
        ) + ") VALUES ("@ + join_texts(Seq::new(columns.len(), |i: int| seq!['?']), sep) + seq![
            ')',
        ],
        insert_run_statement(run).sql == insert_sql("runs"@, run_column_names(), ", "@),
        insert_call_sql() == insert_sql("gpu_calls"@, call_column_names(), ","@),
        insert_summary_sql() == insert_sql("op_summary"@, summary_column_names(), ","@),
{
    reveal_strlit(" (");
    reveal_strlit(")");
    reveal_strlit("?");
    assert(" ("@ =~= seq![' ', '(']);
    assert(")"@ =~= seq![')']);
    assert("?"@ =~= seq!['?']);
    assert(marks(columns.len()) =~= Seq::new(columns.len(), |i: int| seq!['?']));
}

} // verus!
