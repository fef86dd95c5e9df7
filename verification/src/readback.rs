//! A table made of the calls of a run reads back as those calls.
use vstd::prelude::*;

use crate::calls_csv::{call_of_row, csv_record, order_of, Cell, CsvImport, CsvTimes};
use crate::importer::{Accepted, ImportCsvOptions, TraceImport};
use crate::measure::Measure;
use crate::record::{is_counted, RecordView};
use crate::summary::{counted, occurrences, slot_of, summarized, AggView, CallFacts};

verus! {

/// Whether a row has a text under a name.
pub open spec fn has_text(row: Map<Seq<char>, Cell>, name: Seq<char>, text: Seq<char>) -> bool {
    row.contains_key(name) && row[name].text@ == text
}

/// Whether a row has a text under a name, or an empty cell where there is none.
pub open spec fn has_optional_text(
    row: Map<Seq<char>, Cell>,
    name: Seq<char>,
    text: Option<Seq<char>>,
) -> bool {
    match text {
        Some(text) => text.len() > 0 && has_text(row, name, text),
        None => has_text(row, name, Seq::empty()),
    }
}

/// Whether a row has a number under a name.
pub open spec fn has_number(row: Map<Seq<char>, Cell>, name: Seq<char>, number: Measure) -> bool {
    row.contains_key(name) && row[name].text@.len() > 0 && row[name].number == Some(number)
}

/// Whether a row has a number under a name, or an empty cell where there is none.
pub open spec fn has_optional_number(
    row: Map<Seq<char>, Cell>,
    name: Seq<char>,
    number: Option<Measure>,
) -> bool {
    match number {
        Some(number) => has_number(row, name, number),
        None => has_text(row, name, Seq::empty()),
    }
}

/// Whether a row has an integer under a name.
pub open spec fn has_integer(row: Map<Seq<char>, Cell>, name: Seq<char>, integer: i64) -> bool {
    &&& row.contains_key(name)
    &&& row[name].text@.len() > 0
    &&& row[name].number is Some
    &&& row[name].number->0.integer() == integer
}

/// Whether a row has the columns of a call, with a category, and without an extent
/// that is an empty text. The number of each cell is given with its text.
pub open spec fn holds_call(row: Map<Seq<char>, Cell>, record: RecordView) -> bool {
    &&& has_integer(row, "call_order"@, record.call_order)
    &&& record.category.len() > 0
    &&& has_text(row, "category"@, record.category)
    &&& has_text(row, "op_name"@, record.op_name)
    &&& has_number(row, "device_time_us"@, record.device_time_us)
    &&& has_optional_number(row, "occupancy_pct"@, record.occupancy_pct)
    &&& has_optional_number(row, "blocks_per_sm"@, record.blocks_per_sm)
    &&& has_optional_number(row, "warps_per_sm"@, record.warps_per_sm)
    &&& has_optional_number(row, "shared_memory"@, record.shared_memory)
    &&& has_optional_text(row, "grid"@, record.grid)
    &&& has_optional_text(row, "block"@, record.block)
    &&& has_number(row, "free_time_us"@, record.free_time_us)
    &&& has_number(row, "total_time_us"@, record.total_time_us)
    &&& record.start_ts_us is Some
    &&& has_number(row, "start_ts_us"@, record.start_ts_us->0)
    &&& record.end_ts_us is Some
    &&& has_number(row, "end_ts_us"@, record.end_ts_us->0)
    &&& has_text(row, "device"@, record.device)
    &&& has_text(row, "stream"@, record.stream)
    &&& has_text(row, "pid"@, record.pid)
    &&& has_text(row, "tid"@, record.tid)
    &&& has_text(row, "correlation"@, record.correlation)
    &&& has_text(row, "external_id"@, record.external_id)
}

/// A row that has the columns of a call is written as that call again, in its own
/// run, whatever its place in the table and whatever arithmetic says of its times.
pub proof fn row_reads_back(
    row: Map<Seq<char>, Cell>,
    record: RecordView,
    times: CsvTimes,
    run_id: i64,
    row_number: int,
    op_call_index: i64,
)
    requires
        holds_call(row, record),
    ensures
        order_of(call_of_row(row), row_number) == record.call_order,
        csv_record(
            call_of_row(row),
            times,
            run_id,
            order_of(call_of_row(row), row_number),
            op_call_index,
        ) == (RecordView { run_id, op_call_index, ..record }),
{
    let call = call_of_row(row);
    assert(call.op_name =~= record.op_name);
    assert(call.device =~= record.device);
    assert(call.stream =~= record.stream);
    assert(call.pid =~= record.pid);
    assert(call.tid =~= record.tid);
    assert(call.correlation =~= record.correlation);
    assert(call.external_id =~= record.external_id);
}

/// Whether calls are the same one by one, but for their total times.
pub open spec fn same_calls(a: Seq<CallFacts>, b: Seq<CallFacts>) -> bool {
    &&& a.len() == b.len()
    &&& forall|i: int|
        0 <= i < a.len() ==> #[trigger] a[i] == (CallFacts {
            total_time_us: a[i].total_time_us,
            ..b[i]
        })
}

/// Whether operations are the same one by one, but for the bounds of their total
/// times.
pub open spec fn same_operations(a: Seq<AggView>, b: Seq<AggView>) -> bool {
    &&& a.len() == b.len()
    &&& forall|i: int|
        0 <= i < a.len() ==> #[trigger] a[i] == (AggView {
            min_time_us: a[i].min_time_us,
            max_time_us: a[i].max_time_us,
            ..b[i]
        })
}

proof fn lemma_same_slot(
    a: Seq<AggView>,
    b: Seq<AggView>,
    category: Seq<char>,
    op_name: Seq<char>,
)
    requires
        same_operations(a, b),
    ensures
        slot_of(a, category, op_name) == slot_of(b, category, op_name),
    decreases a.len(),
{
    if a.len() > 0 {
        assert(a[0].category == b[0].category);
        let rest_a = a.drop_first();
        let rest_b = b.drop_first();
        assert forall|i: int| 0 <= i < rest_a.len() implies #[trigger] rest_a[i] == (AggView {
            min_time_us: rest_a[i].min_time_us,
            max_time_us: rest_a[i].max_time_us,
            ..rest_b[i]
        }) by {
            assert(rest_a[i] == a[i + 1]);
        }
        lemma_same_slot(rest_a, rest_b, category, op_name);
    }
}

proof fn lemma_same_start(a: Seq<CallFacts>, b: Seq<CallFacts>, n: int)
    requires
        same_calls(a, b),
        0 <= n <= a.len(),
    ensures
        same_calls(a.take(n), b.take(n)),
{
    let start_a = a.take(n);
    let start_b = b.take(n);
    assert forall|i: int| 0 <= i < n implies #[trigger] start_a[i] == (CallFacts {
        total_time_us: start_a[i].total_time_us,
        ..start_b[i]
    }) by {
        assert(start_a[i] == a[i]);
    }
}

proof fn lemma_same_operations(a: Seq<CallFacts>, b: Seq<CallFacts>)
    requires
        same_calls(a, b),
    ensures
        same_operations(summarized(a), summarized(b)),
    decreases a.len(),
{
    if a.len() > 0 {
        lemma_same_start(a, b, a.len() - 1);
        assert(a.take(a.len() - 1) =~= a.drop_last());
        assert(b.take(b.len() - 1) =~= b.drop_last());
        lemma_same_operations(a.drop_last(), b.drop_last());
        let aggs_a = summarized(a.drop_last());
        let aggs_b = summarized(b.drop_last());
        let call = a.last();
        assert(a[a.len() - 1].category == b[b.len() - 1].category);
        lemma_same_slot(aggs_a, aggs_b, call.category, call.op_name);
        let after_a = counted(aggs_a, call);
        let after_b = counted(aggs_b, b.last());
        assert forall|i: int| 0 <= i < after_a.len() implies #[trigger] after_a[i] == (AggView {
            min_time_us: after_a[i].min_time_us,
            max_time_us: after_a[i].max_time_us,
            ..after_b[i]
        }) by {
            if i < aggs_a.len() {
                assert(aggs_a[i].category == aggs_b[i].category);
            }
        }
    }
}

proof fn lemma_same_occurrences(
    a: Seq<CallFacts>,
    b: Seq<CallFacts>,
    category: Seq<char>,
    op_name: Seq<char>,
)
    requires
        same_calls(a, b),
    ensures
        occurrences(a, category, op_name) == occurrences(b, category, op_name),
    decreases a.len(),
{
    if a.len() > 0 {
        assert(a[a.len() - 1].category == b[b.len() - 1].category);
        lemma_same_start(a, b, a.len() - 1);
        assert(a.take(a.len() - 1) =~= a.drop_last());
        assert(b.take(b.len() - 1) =~= b.drop_last());
        lemma_same_occurrences(a.drop_last(), b.drop_last(), category, op_name);
    }
}

/// Whether the calls that an import of a table took are those of rows.
pub open spec fn is_import_of(
    import: CsvImport,
    rows: Seq<Map<Seq<char>, Cell>>,
    times: Seq<CsvTimes>,
) -> bool {
    &&& import.taken().len() == rows.len()
    &&& times.len() == rows.len()
    &&& forall|i: int|
        0 <= i < rows.len() ==> #[trigger] import.taken()[i] == csv_record(
            call_of_row(rows[i]),
            times[i],
            import.run_id,
            order_of(call_of_row(rows[i]), i + 1),
            import.taken()[i].op_call_index,
        )
}

/// An import that has taken the calls of some rows has, once it takes the call of
/// one more, taken the calls of those rows and of that one.
pub proof fn next_row_is_taken(
    before: CsvImport,
    after: CsvImport,
    rows: Seq<Map<Seq<char>, Cell>>,
    times: Seq<CsvTimes>,
    row: Map<Seq<char>, Cell>,
    row_times: CsvTimes,
    op_call_index: i64,
)
    requires
        before.well_formed(),
        is_import_of(before, rows, times),
        after.run_id == before.run_id,
        after.taken() == before.taken().push(
            csv_record(
                call_of_row(row),
                row_times,
                before.run_id,
                order_of(call_of_row(row), before.summary.call_total() + 1),
                op_call_index,
            ),
        ),
    ensures
        is_import_of(after, rows.push(row), times.push(row_times)),
{
    let all_rows = rows.push(row);
    let all_times = times.push(row_times);
    assert forall|i: int| 0 <= i < all_rows.len() implies #[trigger] after.taken()[i]
        == csv_record(
        call_of_row(all_rows[i]),
        all_times[i],
        after.run_id,
        order_of(call_of_row(all_rows[i]), i + 1),
        after.taken()[i].op_call_index,
    ) by {
        if i < rows.len() {
            assert(after.taken()[i] == before.taken()[i]);
        }
    }
}

/// A table with a row for each call that an import of a trace took, in their order,
/// reads back as those calls. Each has all its columns again but for the run, and the
/// operations are the same but for the bounds of their total times: those are of the
/// sums of the times that the table gives.
pub proof fn table_of_calls_reads_back(
    trace: TraceImport,
    table: CsvImport,
    rows: Seq<Map<Seq<char>, Cell>>,
    times: Seq<CsvTimes>,
)
    requires
        trace.well_formed(),
        table.well_formed(),
        rows.len() == trace.taken().len(),
        forall|i: int| 0 <= i < rows.len() ==> holds_call(#[trigger] rows[i], trace.taken()[i]),
        is_import_of(table, rows, times),
    ensures
        table.taken().len() == trace.taken().len(),
        forall|i: int|
            0 <= i < rows.len() ==> #[trigger] table.taken()[i] == (RecordView {
                run_id: table.run_id,
                ..trace.taken()[i]
            }),
        table.summary.call_total() == trace.summary.call_total(),
        same_operations(table.summary@, trace.summary@),
{
    let read = table.taken();
    let written = trace.taken();
    let read_calls = table.summary.history();
    let calls = trace.summary.history();
    assert forall|i: int| 0 <= i < rows.len() implies #[trigger] read[i] == (RecordView {
        run_id: table.run_id,
        op_call_index: read[i].op_call_index,
        ..written[i]
    }) by {
        assert(holds_call(rows[i], written[i]));
        row_reads_back(
            rows[i],
            written[i],
            times[i],
            table.run_id,
            i + 1,
            read[i].op_call_index,
        );
    }
    assert forall|i: int| 0 <= i < calls.len() implies #[trigger] read_calls[i] == (CallFacts {
        total_time_us: read_calls[i].total_time_us,
        ..calls[i]
    }) by {
        assert(is_counted(read[i], read_calls[i]));
        assert(is_counted(written[i], calls[i]));
    }
    lemma_same_operations(read_calls, calls);
    assert forall|i: int| 0 <= i < rows.len() implies #[trigger] read[i] == (RecordView {
        run_id: table.run_id,
        ..written[i]
    }) by {
        assert(is_counted(read[i], read_calls[i]));
        assert(is_counted(written[i], calls[i]));
        lemma_same_start(read_calls, calls, i + 1);
        lemma_same_occurrences(
            read_calls.take(i + 1),
            calls.take(i + 1),
            calls[i].category,
            calls[i].op_name,
        );
    }
}

/// An import of a table that has just begun has taken the calls of no rows, in the run
/// that it was begun for.
pub proof fn tables_begin_with_no_rows(import: CsvImport, run_id: i64, options: ImportCsvOptions)
    requires
        import.has_begun(run_id, options),
    ensures
        is_import_of(import, Seq::empty(), Seq::empty()),
        import.run_id == run_id,
        import.batch_size == options.batch_size,
        import.progress_interval == options.progress_interval,
{
}

/// An import of a table that takes the next row has taken the calls of that row and of
/// those before it.
pub proof fn tables_go_on_row_by_row(
    before: CsvImport,
    after: CsvImport,
    rows: Seq<Map<Seq<char>, Cell>>,
    times: Seq<CsvTimes>,
    row: Map<Seq<char>, Cell>,
    row_times: CsvTimes,
    accepted: Accepted,
)
    requires
        before.well_formed(),
        is_import_of(before, rows, times),
        after.has_accepted(before, call_of_row(row), row_times, accepted),
    ensures
        is_import_of(after, rows.push(row), times.push(row_times)),
{
    next_row_is_taken(
        before,
        after,
        rows,
        times,
        row,
        row_times,
        accepted.op_call_index,
    );
}

} // verus!
