//! Tables of calls: what a row says of a call, and what becomes of it.
use vstd::prelude::*;

use crate::decimal::{i64_text, int_text};
use crate::importer::{
    csv_progress, is_full, is_milestone, is_result_of, milestone, Accepted, ImportCsvOptions,
    ImportResult,
};
use crate::measure::{round_through_double, through_double, Measure};
use crate::record::{
    accounts_for, flush_calls, insert_call_sql, lemma_account_goes_on, record_views,
    records_params, row_views, writes_calls, Batch, CallRecord, RecordView,
};
use crate::summary::{counted, slot_of, CallFacts, Counted, Summary};
use crate::table::Table;
use crate::text::opt_view;

verus! {

/// A cell of a table: its text, and the number that the text reads as.
#[derive(Debug)]
pub struct Cell {
    pub text: String,
    pub number: Option<Measure>,
}

/// What names are.
pub open spec fn names(names: Seq<&'static str>) -> Seq<Seq<char>> {
    Seq::new(names.len(), |i: int| names[i]@)
}

/// The cell of the first of some names that a row has.
pub open spec fn first_cell(row: Map<Seq<char>, Cell>, names: Seq<Seq<char>>) -> Option<Cell>
    decreases names.len(),
{
    if names.len() == 0 {
        None
    } else if row.contains_key(names[0]) {
        Some(row[names[0]])
    } else {
        first_cell(row, names.drop_first())
    }
}

/// The cell of the first of some names that a row has, unless it is empty.
pub open spec fn filled_cell(row: Map<Seq<char>, Cell>, names: Seq<Seq<char>>) -> Option<Cell> {
    match first_cell(row, names) {
        Some(cell) => if cell.text@.len() > 0 {
            Some(cell)
        } else {
            None
        },
        None => None,
    }
}

/// The text that a row gives under some names.
pub open spec fn cell_text(row: Map<Seq<char>, Cell>, names: Seq<Seq<char>>) -> Option<Seq<char>> {
    match filled_cell(row, names) {
        Some(cell) => Some(cell.text@),
        None => None,
    }
}

/// The number that a row gives under some names.
pub open spec fn cell_number(row: Map<Seq<char>, Cell>, names: Seq<Seq<char>>) -> Option<Measure> {
    match filled_cell(row, names) {
        Some(cell) => cell.number,
        None => None,
    }
}

/// A value, or another where there is none.
pub open spec fn or<T>(value: Option<T>, default: T) -> T {
    match value {
        Some(value) => value,
        None => default,
    }
}

fn find_cell<'a>(row: &'a Table<Cell>, names: &[&'static str]) -> (r: Option<&'a Cell>)
    ensures
        match r {
            Some(cell) => filled_cell(row@, self::names(names@)) == Some(*cell),
            None => filled_cell(row@, self::names(names@)) is None,
        },
{
    let ghost all = self::names(names@);
    let mut i: usize = 0;
    assert(all.skip(0) =~= all);
    while i < names.len()
        invariant
            i <= names@.len(),
            all == self::names(names@),
            first_cell(row@, all) == first_cell(row@, all.skip(i as int)),
        decreases names@.len() - i,
    {
        assert(all.skip(i as int)[0] == names@[i as int]@);
        assert(all.skip(i as int).drop_first() =~= all.skip(i + 1));
        if let Some(cell) = row.get(names[i]) {
            if cell.text.as_str().is_empty() {
                return None;
            }
            return Some(cell);
        }
        i += 1;
    }
    assert(all.skip(i as int).len() == 0);
    None
}

/// The number that a row gives under some names, or another.
pub fn parse_float(row: &Table<Cell>, names: &[&'static str], default: Measure) -> (r: Measure)
    ensures
        r == or(cell_number(row@, self::names(names@)), default),
{
    match parse_optional_float(row, names) {
        Some(number) => number,
        None => default,
    }
}

/// The number that a row gives under some names.
pub fn parse_optional_float(row: &Table<Cell>, names: &[&'static str]) -> (r: Option<Measure>)
    ensures
        r == cell_number(row@, self::names(names@)),
{
    match find_cell(row, names) {
        Some(cell) => cell.number,
        None => None,
    }
}

/// The text that a row gives under some names.
pub fn parse_optional_text(row: &Table<Cell>, names: &[&'static str]) -> (r: Option<String>)
    ensures
        opt_view(r) == cell_text(row@, self::names(names@)),
{
    match find_cell(row, names) {
        Some(cell) => Some(cell.text.clone()),
        None => None,
    }
}

/// The text that a row gives under some names, or another.
pub fn parse_text(row: &Table<Cell>, names: &[&'static str], default: &str) -> (r: String)
    ensures
        r@ == or(cell_text(row@, self::names(names@)), default@),
{
    match parse_optional_text(row, names) {
        Some(text) => text,
        None => default.to_owned(),
    }
}

/// What a row says of a call. Where a number is missing that arithmetic gives
/// otherwise, there is none.
#[derive(Debug)]
pub struct CsvCall {
    pub call_order: Option<Measure>,
    pub category: String,
    pub op_name: String,
    pub device_time_us: Measure,
    pub free_time_us: Measure,
    pub total_time_us: Option<Measure>,
    pub occupancy_pct: Option<Measure>,
    pub blocks_per_sm: Option<Measure>,
    pub warps_per_sm: Option<Measure>,
    pub shared_memory: Option<Measure>,
    pub grid: Option<String>,
    pub block: Option<String>,
    pub start_ts_us: Measure,
    pub end_ts_us: Option<Measure>,
    pub device: String,
    pub stream: String,
    pub pid: String,
    pub tid: String,
    pub correlation: String,
    pub external_id: String,
}

/// What a row's call is.
pub struct CsvCallView {
    pub call_order: Option<Measure>,
    pub category: Seq<char>,
    pub op_name: Seq<char>,
    pub device_time_us: Measure,
    pub free_time_us: Measure,
    pub total_time_us: Option<Measure>,
    pub occupancy_pct: Option<Measure>,
    pub blocks_per_sm: Option<Measure>,
    pub warps_per_sm: Option<Measure>,
    pub shared_memory: Option<Measure>,
    pub grid: Option<Seq<char>>,
    pub block: Option<Seq<char>>,
    pub start_ts_us: Measure,
    pub end_ts_us: Option<Measure>,
    pub device: Seq<char>,
    pub stream: Seq<char>,
    pub pid: Seq<char>,
    pub tid: Seq<char>,
    pub correlation: Seq<char>,
    pub external_id: Seq<char>,
}

impl View for CsvCall {
    type V = CsvCallView;

    open spec fn view(&self) -> CsvCallView {
        CsvCallView {
            call_order: self.call_order,
            category: self.category@,
            op_name: self.op_name@,
            device_time_us: self.device_time_us,
            free_time_us: self.free_time_us,
            total_time_us: self.total_time_us,
            occupancy_pct: self.occupancy_pct,
            blocks_per_sm: self.blocks_per_sm,
            warps_per_sm: self.warps_per_sm,
            shared_memory: self.shared_memory,
            grid: opt_view(self.grid),
            block: opt_view(self.block),
            start_ts_us: self.start_ts_us,
            end_ts_us: self.end_ts_us,
            device: self.device@,
            stream: self.stream@,
            pid: self.pid@,
            tid: self.tid@,
            correlation: self.correlation@,
            external_id: self.external_id@,
        }
    }
}

/// The call of a row.
pub open spec fn call_of_row(row: Map<Seq<char>, Cell>) -> CsvCallView {
    let none = Measure { bits: 0 };
    let nothing = Seq::<char>::empty();
    CsvCallView {
        call_order: cell_number(row, seq!["call_order"@]),
        category: or(cell_text(row, seq!["category"@]), "kernel"@),
        op_name: or(cell_text(row, seq!["op_name"@, "name"@]), nothing),
        device_time_us: or(cell_number(row, seq!["device_time_us"@, "duration_us"@]), none),
        free_time_us: or(cell_number(row, seq!["free_time_us"@]), none),
        total_time_us: cell_number(row, seq!["total_time_us"@]),
        occupancy_pct: cell_number(row, seq!["occupancy_pct"@, "occupancy"@]),
        blocks_per_sm: cell_number(row, seq!["blocks_per_sm"@, "blocks per SM"@]),
        warps_per_sm: cell_number(row, seq!["warps_per_sm"@, "warps per SM"@]),
        shared_memory: cell_number(row, seq!["shared_memory"@, "shared memory"@]),
        grid: cell_text(row, seq!["grid"@]),
        block: cell_text(row, seq!["block"@]),
        start_ts_us: or(cell_number(row, seq!["start_ts_us"@, "ts_us"@]), none),
        end_ts_us: cell_number(row, seq!["end_ts_us"@]),
        device: or(cell_text(row, seq!["device"@]), nothing),
        stream: or(cell_text(row, seq!["stream"@]), nothing),
        pid: or(cell_text(row, seq!["pid"@]), nothing),
        tid: or(cell_text(row, seq!["tid"@]), nothing),
        correlation: or(cell_text(row, seq!["correlation"@]), nothing),
        external_id: or(cell_text(row, seq!["external_id"@]), nothing),
    }
}

fn text_under(row: &Table<Cell>, name: &'static str) -> (r: String)
    ensures
        r@ == or(cell_text(row@, seq![name@]), Seq::empty()),
{
    let names: [&'static str; 1] = [name];
    assert(self::names(names@) =~= seq![name@]);
    proof {
        reveal_strlit("");
    }
    assert(""@ =~= Seq::<char>::empty());
    parse_text(row, &names, "")
}

fn optional_text_under(row: &Table<Cell>, name: &'static str) -> (r: Option<String>)
    ensures
        opt_view(r) == cell_text(row@, seq![name@]),
{
    let names: [&'static str; 1] = [name];
    assert(self::names(names@) =~= seq![name@]);
    parse_optional_text(row, &names)
}

fn number_under(row: &Table<Cell>, name: &'static str) -> (r: Option<Measure>)
    ensures
        r == cell_number(row@, seq![name@]),
{
    let names: [&'static str; 1] = [name];
    assert(self::names(names@) =~= seq![name@]);
    parse_optional_float(row, &names)
}

fn number_under_either(row: &Table<Cell>, name: &'static str, other: &'static str) -> (r: Option<
    Measure,
>)
    ensures
        r == cell_number(row@, seq![name@, other@]),
{
    let names: [&'static str; 2] = [name, other];
    assert(self::names(names@) =~= seq![name@, other@]);
    parse_optional_float(row, &names)
}

fn or_zero(number: Option<Measure>) -> (r: Measure)
    ensures
        r == or(number, Measure { bits: 0 }),
{
    match number {
        Some(number) => number,
        None => Measure::zero(),
    }
}

/// Reads the call of a row.
pub fn read_call(row: &Table<Cell>) -> (r: CsvCall)
    ensures
        r@ == call_of_row(row@),
{
    let category_names: [&'static str; 1] = ["category"];
    let op_names: [&'static str; 2] = ["op_name", "name"];
    assert(names(category_names@) =~= seq!["category"@]);
    assert(names(op_names@) =~= seq!["op_name"@, "name"@]);
    proof {
        reveal_strlit("");
    }
    assert(""@ =~= Seq::<char>::empty());
    CsvCall {
        call_order: number_under(row, "call_order"),
        category: parse_text(row, &category_names, "kernel"),
        op_name: parse_text(row, &op_names, ""),
        device_time_us: or_zero(number_under_either(row, "device_time_us", "duration_us")),
        free_time_us: or_zero(number_under(row, "free_time_us")),
        total_time_us: number_under(row, "total_time_us"),
        occupancy_pct: number_under_either(row, "occupancy_pct", "occupancy"),
        blocks_per_sm: number_under_either(row, "blocks_per_sm", "blocks per SM"),
        warps_per_sm: number_under_either(row, "warps_per_sm", "warps per SM"),
        shared_memory: number_under_either(row, "shared_memory", "shared memory"),
        grid: optional_text_under(row, "grid"),
        block: optional_text_under(row, "block"),
        start_ts_us: or_zero(number_under_either(row, "start_ts_us", "ts_us")),
        end_ts_us: number_under(row, "end_ts_us"),
        device: text_under(row, "device"),
        stream: text_under(row, "stream"),
        pid: text_under(row, "pid"),
        tid: text_under(row, "tid"),
        correlation: text_under(row, "correlation"),
        external_id: text_under(row, "external_id"),
    }
}

/// The times of a row's call that arithmetic gives.
#[derive(Clone, Copy, Debug)]
pub struct CsvTimes {
    /// The time on the device and the free time together.
    pub time_us: Measure,
    /// The start and the time on the device together.
    pub end_us: Measure,
}

/// The number of a row's call: the one that it gives, or that of the row. Both are
/// double-precision numbers in between.
pub open spec fn order_of(call: CsvCallView, row_number: int) -> i64 {
    match call.call_order {
        Some(order) => order.integer(),
        None => through_double(row_number as nat),
    }
}

/// What is counted of a row's call. Its total time is the sum of its times,
/// whatever total the row gives.
pub open spec fn csv_facts(call: CsvCallView, times: CsvTimes, call_order: i64) -> CallFacts {
    CallFacts {
        call_order,
        category: call.category,
        op_name: call.op_name,
        device_time_us: call.device_time_us,
        free_time_us: call.free_time_us,
        total_time_us: times.time_us,
        occupancy_pct: call.occupancy_pct,
    }
}

/// What is written of a row's call.
pub open spec fn csv_record(
    call: CsvCallView,
    times: CsvTimes,
    run_id: i64,
    call_order: i64,
    op_call_index: i64,
) -> RecordView {
    RecordView {
        run_id,
        call_order,
        op_call_index,
        category: call.category,
        op_name: call.op_name,
        device_time_us: call.device_time_us,
        occupancy_pct: call.occupancy_pct,
        blocks_per_sm: call.blocks_per_sm,
        warps_per_sm: call.warps_per_sm,
        shared_memory: call.shared_memory,
        grid: call.grid,
        block: call.block,
        free_time_us: call.free_time_us,
        total_time_us: or(call.total_time_us, times.time_us),
        start_ts_us: Some(call.start_ts_us),
        end_ts_us: Some(or(call.end_ts_us, times.end_us)),
        device: call.device,
        stream: call.stream,
        pid: call.pid,
        tid: call.tid,
        correlation: call.correlation,
        external_id: call.external_id,
    }
}

/// An import of a table of calls on its way.
pub struct CsvImport {
    pub run_id: i64,
    pub batch_size: usize,
    pub progress_interval: i64,
    pub summary: Summary,
    pub batch: Vec<CallRecord>,
    /// The calls that were handed out to be written.
    pub written: Ghost<Seq<RecordView>>,
}

impl CsvImport {
    /// The calls that were taken: those handed out to be written, and those put
    /// aside.
    pub open spec fn taken(self) -> Seq<RecordView> {
        self.written@ + record_views(self.batch@)
    }

    /// Whether the operations are those of the calls that were taken.
    pub open spec fn well_formed(self) -> bool {
        &&& self.summary.well_formed()
        &&& accounts_for(self.taken(), self.summary.history(), self.run_id)
    }

    /// Whether this is an import of a table before its first row.
    pub open spec fn has_begun(self, run_id: i64, options: ImportCsvOptions) -> bool {
        &&& self.run_id == run_id
        &&& self.batch_size == options.batch_size
        &&& self.progress_interval == options.progress_interval
        &&& self.summary.call_total() == 0
        &&& self.taken().len() == 0
    }

    /// The import of a table before its first row.
    pub fn new(run_id: i64, options: &ImportCsvOptions) -> (r: CsvImport)
        ensures
            r.well_formed(),
            r.run_id == run_id,
            r.batch_size == options.batch_size,
            r.progress_interval == options.progress_interval,
            r.summary@.len() == 0,
            r.summary.call_total() == 0,
            r.batch@.len() == 0,
            r.written@ == Seq::<RecordView>::empty(),
            r.has_begun(run_id, *options),
    {
        CsvImport {
            run_id,
            batch_size: options.batch_size,
            progress_interval: options.progress_interval,
            summary: Summary::new(),
            batch: Vec::new(),
            written: Ghost(Seq::empty()),
        }
    }

    /// Whether two imports ask for the same.
    pub open spec fn same_request(self, other: CsvImport) -> bool {
        &&& self.run_id == other.run_id
        &&& self.batch_size == other.batch_size
        &&& self.progress_interval == other.progress_interval
    }

    /// What becomes of the call of the next row.
    pub open spec fn has_accepted(
        self,
        before: CsvImport,
        call: CsvCallView,
        times: CsvTimes,
        accepted: Accepted,
    ) -> bool {
        let rows = before.summary.call_total() + 1;
        let call_order = order_of(call, rows);
        let facts = csv_facts(call, times, call_order);
        &&& self.same_request(before)
        &&& self.written == before.written
        &&& self.summary.call_total() == rows
        &&& self.summary@ == counted(before.summary@, facts)
        &&& self.summary.history() == before.summary.history().push(facts)
        &&& accepted.slot == slot_of(before.summary@, call.category, call.op_name)
        &&& self.taken() == before.taken().push(
            csv_record(call, times, before.run_id, call_order, accepted.op_call_index),
        )
        &&& self.batch@.len() == before.batch@.len() + 1
        &&& accepted.flush == is_full(self.batch@.len(), before.batch_size)
        &&& opt_view(accepted.progress) == (if is_milestone(rows, before.progress_interval) {
            Some(csv_progress(before.run_id, rows))
        } else {
            None
        })
    }

    /// Takes the call of the next row.
    pub fn accept(&mut self, call: CsvCall, times: CsvTimes) -> (r: Accepted)
        requires
            old(self).well_formed(),
            old(self).summary.call_total() < i64::MAX,
        ensures
            final(self).well_formed(),
            final(self).same_request(*old(self)),
            final(self).written == old(self).written,
            ({
                let rows = old(self).summary.call_total() + 1;
                let call_order = order_of(call@, rows);
                &&& final(self).summary.call_total() == rows
                &&& final(self).summary@ == counted(
                    old(self).summary@,
                    csv_facts(call@, times, call_order),
                )
                &&& r.slot == slot_of(old(self).summary@, call.category@, call.op_name@)
                &&& r.slot < final(self).summary@.len()
                &&& r.op_call_index == final(self).summary@[r.slot as int].call_count
                &&& record_views(final(self).batch@) == record_views(old(self).batch@).push(
                    csv_record(call@, times, old(self).run_id, call_order, r.op_call_index),
                )
                &&& final(self).taken() == old(self).taken().push(
                    csv_record(call@, times, old(self).run_id, call_order, r.op_call_index),
                )
                &&& r.flush == is_full(final(self).batch@.len(), old(self).batch_size)
                &&& opt_view(r.progress) == (if is_milestone(rows, old(self).progress_interval) {
                    Some(csv_progress(old(self).run_id, rows))
                } else {
                    None
                })
            }),
            final(self).has_accepted(*old(self), call@, times, r),
    {
        let total_rows: i64 = self.summary.total() + 1;
        let call_order: i64 = match call.call_order {
            Some(order) => order.to_integer(),
            None => round_through_double(total_rows),
        };
        let Counted { slot, op_call_index } = self.summary.add_summary(
            call_order,
            call.category.as_str(),
            call.op_name.as_str(),
            call.device_time_us,
            call.free_time_us,
            times.time_us,
            call.occupancy_pct,
        );
        let ghost before = self.batch@;
        let record = CallRecord {
            run_id: self.run_id,
            call_order,
            op_call_index,
            category: call.category,
            op_name: call.op_name,
            device_time_us: call.device_time_us,
            occupancy_pct: call.occupancy_pct,
            blocks_per_sm: call.blocks_per_sm,
            warps_per_sm: call.warps_per_sm,
            shared_memory: call.shared_memory,
            grid: call.grid,
            block: call.block,
            free_time_us: call.free_time_us,
            total_time_us: match call.total_time_us {
                Some(time) => time,
                None => times.time_us,
            },
            start_ts_us: Some(call.start_ts_us),
            end_ts_us: match call.end_ts_us {
                Some(end) => Some(end),
                None => Some(times.end_us),
            },
            device: call.device,
            stream: call.stream,
            pid: call.pid,
            tid: call.tid,
            correlation: call.correlation,
            external_id: call.external_id,
        };
        self.batch.push(record);
        assert(record_views(self.batch@) =~= record_views(before).push(record@));
        proof {
            let counted_call = self.summary.history().last();
            assert(self.taken() =~= old(self).taken().push(record@));
            lemma_account_goes_on(
                old(self).taken(),
                old(self).summary.history(),
                self.run_id,
                record@,
                counted_call,
            );
        }
        let flush = self.batch.len() >= self.batch_size && self.batch.len() >= 1;
        let progress: Option<String> = if milestone(total_rows, self.progress_interval) {
            let mut message = "run ".to_owned();
            message.append(i64_text(self.run_id).as_str());
            message.append(": imported ");
            message.append(i64_text(total_rows).as_str());
            message.append(" CSV rows");
            Some(message)
        } else {
            None
        };
        Accepted { slot, op_call_index, flush, progress }
    }

    /// What writes the calls that were put aside.
    pub fn flush(&mut self) -> (r: Option<Batch>)
        requires
            old(self).well_formed(),
        ensures
            final(self).well_formed(),
            final(self).same_request(*old(self)),
            final(self).summary == old(self).summary,
            final(self).batch@.len() == 0,
            final(self).written@ == old(self).written@ + record_views(old(self).batch@),
            final(self).taken() == old(self).taken(),
            match r {
                None => old(self).batch@.len() == 0,
                Some(written) => {
                    &&& old(self).batch@.len() > 0
                    &&& written.sql@ == insert_call_sql()
                    &&& row_views(written.rows@) == records_params(record_views(old(self).batch@))
                },
            },
            writes_calls(r, record_views(old(self).batch@)),
    {
        self.written = Ghost(self.taken());
        let batch = flush_calls(&mut self.batch);
        assert(self.taken() =~= old(self).taken());
        batch
    }

    /// What the import has done.
    pub fn result(&self, db_path: std::path::PathBuf) -> (r: ImportResult)
        ensures
            r.db_path == db_path,
            r.run_id == self.run_id,
            r.gpu_calls == self.summary.call_total(),
            r.unique_ops == self.summary@.len(),
            is_result_of(r, db_path, self.run_id, self.summary),
    {
        ImportResult {
            db_path,
            run_id: self.run_id,
            gpu_calls: self.summary.total(),
            unique_ops: self.summary.len(),
        }
    }
}

/// The cell of a row under a name, or under another where it has none under that.
pub open spec fn cell_under(
    row: Map<Seq<char>, Cell>,
    name: Seq<char>,
    other: Seq<char>,
) -> Option<Cell> {
    if row.contains_key(name) {
        Some(row[name])
    } else if row.contains_key(other) {
        Some(row[other])
    } else {
        None
    }
}

/// The number that a cell reads as, unless it is empty.
pub open spec fn amount_in(cell: Option<Cell>) -> Option<Measure> {
    if cell is Some && cell->0.text@.len() > 0 {
        cell->0.number
    } else {
        None
    }
}

/// The text of a cell, or another where the cell is missing or empty.
pub open spec fn words_in(cell: Option<Cell>, default: Seq<char>) -> Seq<char> {
    if cell is Some && cell->0.text@.len() > 0 {
        cell->0.text@
    } else {
        default
    }
}

/// The text of a cell, unless it is empty.
pub open spec fn words_if_any(cell: Option<Cell>) -> Option<Seq<char>> {
    if cell is Some && cell->0.text@.len() > 0 {
        Some(cell->0.text@)
    } else {
        None
    }
}

/// A number, or zero.
pub open spec fn or_nothing(amount: Option<Measure>) -> Measure {
    match amount {
        Some(amount) => amount,
        None => Measure { bits: 0 },
    }
}

proof fn lemma_first_cell(row: Map<Seq<char>, Cell>, name: Seq<char>, other: Seq<char>)
    ensures
        first_cell(row, seq![name]) == cell_under(row, name, name),
        first_cell(row, seq![name, other]) == cell_under(row, name, other),
{
    reveal_with_fuel(first_cell, 3);
    assert(seq![name].drop_first() =~= Seq::<Seq<char>>::empty());
    assert(seq![name, other].drop_first() =~= seq![other]);
    assert(seq![other].drop_first() =~= Seq::<Seq<char>>::empty());
}

/// Each part of a call is read from the cell under its own name. Some have a second
/// name, by which they are called where the first one is missing. A call without a
/// category is a kernel.
pub proof fn rows_are_read_by_their_names(row: Map<Seq<char>, Cell>)
    ensures
        ({
            let call = call_of_row(row);
            &&& call.call_order == amount_in(cell_under(row, "call_order"@, "call_order"@))
            &&& call.category == words_in(cell_under(row, "category"@, "category"@), "kernel"@)
            &&& call.op_name == words_in(cell_under(row, "op_name"@, "name"@), Seq::empty())
            &&& call.device_time_us == or_nothing(
                amount_in(cell_under(row, "device_time_us"@, "duration_us"@)),
            )
            &&& call.free_time_us == or_nothing(
                amount_in(cell_under(row, "free_time_us"@, "free_time_us"@)),
            )
            &&& call.total_time_us == amount_in(
                cell_under(row, "total_time_us"@, "total_time_us"@),
            )
            &&& call.occupancy_pct == amount_in(cell_under(row, "occupancy_pct"@, "occupancy"@))
            &&& call.blocks_per_sm == amount_in(
                cell_under(row, "blocks_per_sm"@, "blocks per SM"@),
            )
            &&& call.warps_per_sm == amount_in(cell_under(row, "warps_per_sm"@, "warps per SM"@))
            &&& call.shared_memory == amount_in(
                cell_under(row, "shared_memory"@, "shared memory"@),
            )
            &&& call.grid == words_if_any(cell_under(row, "grid"@, "grid"@))
            &&& call.block == words_if_any(cell_under(row, "block"@, "block"@))
            &&& call.start_ts_us == or_nothing(
                amount_in(cell_under(row, "start_ts_us"@, "ts_us"@)),
            )
            &&& call.end_ts_us == amount_in(cell_under(row, "end_ts_us"@, "end_ts_us"@))
            &&& call.device == words_in(cell_under(row, "device"@, "device"@), Seq::empty())
            &&& call.stream == words_in(cell_under(row, "stream"@, "stream"@), Seq::empty())
            &&& call.pid == words_in(cell_under(row, "pid"@, "pid"@), Seq::empty())
            &&& call.tid == words_in(cell_under(row, "tid"@, "tid"@), Seq::empty())
            &&& call.correlation == words_in(
                cell_under(row, "correlation"@, "correlation"@),
                Seq::empty(),
            )
            &&& call.external_id == words_in(
                cell_under(row, "external_id"@, "external_id"@),
                Seq::empty(),
            )
        }),
{
    lemma_first_cell(row, "call_order"@, "call_order"@);
    lemma_first_cell(row, "category"@, "category"@);
    lemma_first_cell(row, "free_time_us"@, "free_time_us"@);
    lemma_first_cell(row, "total_time_us"@, "total_time_us"@);
    lemma_first_cell(row, "grid"@, "grid"@);
    lemma_first_cell(row, "block"@, "block"@);
    lemma_first_cell(row, "end_ts_us"@, "end_ts_us"@);
    lemma_first_cell(row, "device"@, "device"@);
    lemma_first_cell(row, "stream"@, "stream"@);
    lemma_first_cell(row, "pid"@, "pid"@);
    lemma_first_cell(row, "tid"@, "tid"@);
    lemma_first_cell(row, "correlation"@, "correlation"@);
    lemma_first_cell(row, "external_id"@, "external_id"@);
    lemma_first_cell(row, "op_name"@, "name"@);
    lemma_first_cell(row, "device_time_us"@, "duration_us"@);
    lemma_first_cell(row, "occupancy_pct"@, "occupancy"@);
    lemma_first_cell(row, "blocks_per_sm"@, "blocks per SM"@);
    lemma_first_cell(row, "warps_per_sm"@, "warps per SM"@);
    lemma_first_cell(row, "shared_memory"@, "shared memory"@);
    lemma_first_cell(row, "start_ts_us"@, "ts_us"@);
}

/// What is written of the call of a row is what the row says of it. It has the number
/// that the row gives, or that of the row. Its total time and its end are those that
/// the row gives, or those that arithmetic gives. What is counted of it are its times
/// and their sum, whatever total the row gives.
pub proof fn rows_are_written_as_they_say(
    row: Map<Seq<char>, Cell>,
    times: CsvTimes,
    run_id: i64,
    row_number: int,
    op_call_index: i64,
)
    requires
        0 <= row_number < 0x20_0000_0000_0000,
    ensures
        ({
            let call = call_of_row(row);
            let order = order_of(call, row_number);
            let record = csv_record(call, times, run_id, order, op_call_index);
            let facts = csv_facts(call, times, order);
            &&& order == (match call.call_order {
                Some(given) => given.integer() as int,
                None => row_number,
            })
            &&& record.run_id == run_id && record.op_call_index == op_call_index
            &&& record.call_order == order && facts.call_order == order
            &&& record.category == call.category && facts.category == call.category
            &&& record.op_name == call.op_name && facts.op_name == call.op_name
            &&& record.device_time_us == call.device_time_us
            &&& facts.device_time_us == call.device_time_us
            &&& record.free_time_us == call.free_time_us
            &&& facts.free_time_us == call.free_time_us
            &&& record.occupancy_pct == call.occupancy_pct
            &&& facts.occupancy_pct == call.occupancy_pct
            &&& facts.total_time_us == times.time_us
            &&& call.total_time_us is Some ==> record.total_time_us == call.total_time_us->0
            &&& call.total_time_us is None ==> record.total_time_us == times.time_us
            &&& record.start_ts_us == Some(call.start_ts_us)
            &&& call.end_ts_us is Some ==> record.end_ts_us == call.end_ts_us
            &&& call.end_ts_us is None ==> record.end_ts_us == Some(times.end_us)
            &&& record.blocks_per_sm == call.blocks_per_sm
            &&& record.warps_per_sm == call.warps_per_sm
            &&& record.shared_memory == call.shared_memory
            &&& record.grid == call.grid && record.block == call.block
            &&& record.device == call.device && record.stream == call.stream
            &&& record.pid == call.pid && record.tid == call.tid
            &&& record.correlation == call.correlation
            &&& record.external_id == call.external_id
        }),
{
    crate::measure::small_integers_are_doubles(row_number as nat);
}

/// The rows of a table are taken one after another. Each has the number that it gives,
/// or that of its place, and counts for its operation. What was put aside is to be
/// written as soon as there is as much as asked for, or one call where less is asked
/// for, and progress is told whenever as many rows more were taken as asked for.
pub proof fn rows_are_taken_one_after_another(
    before: CsvImport,
    after: CsvImport,
    row: Map<Seq<char>, Cell>,
    times: CsvTimes,
    accepted: Accepted,
)
    requires
        before.well_formed(),
        after.well_formed(),
        before.taken().len() < 0x1F_FFFF_FFFF_FFFF,
        after.has_accepted(before, call_of_row(row), times, accepted),
    ensures
        ({
            let call = call_of_row(row);
            let n = before.taken().len() as int;
            let record = after.taken()[n];
            let counted = after.summary.history()[n];
            &&& after.taken().len() == n + 1
            &&& after.summary.history().len() == n + 1
            &&& forall|i: int| 0 <= i < n ==> #[trigger] after.taken()[i] == before.taken()[i]
            &&& record.run_id == before.run_id && after.run_id == before.run_id
            &&& call.call_order is None ==> record.call_order == n + 1
            &&& call.call_order is Some ==> record.call_order == call.call_order->0.integer()
            &&& record.op_name == call.op_name && counted.op_name == call.op_name
            &&& record.category == call.category && counted.category == call.category
            &&& counted.device_time_us == call.device_time_us
            &&& counted.free_time_us == call.free_time_us
            &&& counted.total_time_us == times.time_us
            &&& counted.occupancy_pct == call.occupancy_pct
            &&& accepted.flush <==> after.batch@.len() >= 1 && after.batch@.len()
                >= before.batch_size
            &&& accepted.progress is Some <==> before.progress_interval > 0 && (n + 1) % (
            before.progress_interval as int) == 0
            &&& accepted.progress is Some ==> accepted.progress->0@ == "run "@
                + int_text(before.run_id as int) + ": imported "@
                + int_text(n + 1) + " CSV rows"@
        }),
{
    rows_are_written_as_they_say(
        row,
        times,
        before.run_id,
        before.summary.call_total() + 1,
        accepted.op_call_index,
    );
}

} // verus!
