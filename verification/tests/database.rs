use std::path::PathBuf;

use gpu_trace_viewer::db::{
    Bracket, CallStats, Figures, SortSpec, TotalsRow, LATEST_RUN, READ_ONLY, RUNS, SCHEMA, TUNE_FOR_IMPORT,
};
use gpu_trace_viewer::importer::{trace_filters, ImportTraceOptions, TraceImport, EventTimes};
use gpu_trace_viewer::measure::Measure;
use gpu_trace_viewer::query::{
    call_context, call_stats, call_table_changes, calls, delete_run, deleted, has_context, insert_run, summary,
    summary_table_changes, table_info, totals, NewRun, SqlValue, Statement,
};
use gpu_trace_viewer::record::{finalize_run, Batch, Sums};
use gpu_trace_viewer::table::Table;
use gpu_trace_viewer::trace::read_event;
use rusqlite::types::Value;
use rusqlite::{params_from_iter, Connection};

fn measure(value: f64) -> Measure {
    Measure { bits: value.to_bits() }
}

fn sql_value(value: &SqlValue) -> Value {
    match value {
        SqlValue::Null => Value::Null,
        SqlValue::Integer(n) => Value::Integer(*n),
        SqlValue::Number(x) => Value::Real(f64::from_bits(x.bits)),
        SqlValue::Text(s) => Value::Text(s.clone()),
    }
}

fn execute(conn: &Connection, sql: &str, params: &[SqlValue]) -> usize {
    conn.execute(sql, params_from_iter(params.iter().map(sql_value))).unwrap()
}

fn run(conn: &Connection, statement: &Statement) -> usize {
    execute(conn, &statement.sql, &statement.params)
}

fn write(conn: &Connection, batch: &Batch) {
    for row in &batch.rows {
        execute(conn, &batch.sql, row);
    }
}

fn column(conn: &Connection, statement: &Statement, name: &str) -> Vec<Value> {
    let mut stmt = conn.prepare(&statement.sql).unwrap();
    let rows = stmt
        .query_map(params_from_iter(statement.params.iter().map(sql_value)), |row| row.get::<_, Value>(name))
        .unwrap();
    rows.map(|value| value.unwrap()).collect()
}

fn integers(conn: &Connection, statement: &Statement, name: &str) -> Vec<i64> {
    column(conn, statement, name)
        .into_iter()
        .map(|value| match value {
            Value::Integer(n) => n,
            other => panic!("{other:?}"),
        })
        .collect()
}

fn new_run() -> NewRun {
    NewRun {
        label: None,
        source_type: "trace".to_string(),
        source_path: "trace.json".to_string(),
        source_size_bytes: Some(10),
        imported_at: "2024-01-02T03:04:05".to_string(),
        app_version: "0".to_string(),
        categories: "kernel".to_string(),
        include_name: None,
        exclude_name: None,
        min_device_time_us: measure(0.5),
    }
}

/// A database with one run of twelve calls of two operations.
fn filled() -> (Connection, i64) {
    let conn = Connection::open_in_memory().unwrap();
    conn.execute_batch(SCHEMA).unwrap();
    assert_eq!(run(&conn, &insert_run(&new_run())), 1);
    let run_id = conn.last_insert_rowid();
    let options = ImportTraceOptions::new(PathBuf::from("db"), PathBuf::from("trace"));
    let mut import = TraceImport::new(run_id, trace_filters(&options).unwrap(), &options);
    let none = Table::new();
    for i in 0..12 {
        let name = if i % 3 == 0 { "gemm" } else { "relu" };
        let text = format!(
            r#"{{"ph":"X","cat":"kernel","name":"{name}","dur":{},"ts":{},"args":{{"device":0,"stream":1}}}}"#,
            i + 1,
            i * 100
        );
        let event = read_event(&serde_json::from_str(&text).unwrap()).unwrap();
        let call = import.decode(Some(&event), &none).unwrap();
        let times = EventTimes {
            end_us: measure(f64::from(i * 100 + i + 1)),
            gap_us: measure(0.0),
            total_time_us: measure(f64::from(i + 1)),
        };
        import.accept(call, times).unwrap();
    }
    write(&conn, &import.flush().unwrap());
    let sums = |total: f64, calls: f64| Sums {
        total_device_time_us: measure(total),
        total_free_time_us: measure(0.0),
        total_time_us: measure(total),
        mean_device_time_us: measure(total / calls),
        mean_free_time_us: measure(0.0),
        mean_time_us: measure(total / calls),
        mean_occupancy_pct: measure(0.0),
    };
    let ending = finalize_run(run_id, &import.summary, &vec![sums(22.0, 4.0), sums(56.0, 8.0)]);
    write(&conn, &ending.operations);
    assert_eq!(run(&conn, &ending.run), 1);
    (conn, run_id)
}

#[test]
fn an_import_can_be_read_again() {
    let (conn, run_id) = filled();
    let by_device = summary(run_id, None, SortSpec::from_key("device"), 10);
    assert_eq!(
        column(&conn, &by_device, "op_name"),
        vec![Value::Text("relu".to_string()), Value::Text("gemm".to_string())]
    );
    let by_first = summary(run_id, Some(""), SortSpec::from_key("first"), 10);
    assert_eq!(integers(&conn, &by_first, "first_call_order"), vec![1, 2]);
    assert_eq!(integers(&conn, &by_first, "call_count"), vec![4, 8]);
    let some = summary(run_id, Some("EM"), SortSpec::from_key("first"), 10);
    assert_eq!(integers(&conn, &some, "call_count"), vec![4]);
    assert_eq!(integers(&conn, &summary(run_id, None, SortSpec::from_key("first"), -3), "call_count"), vec![4]);
}

#[test]
fn calls_are_read_by_name_operation_and_number() {
    let (conn, run_id) = filled();
    assert_eq!(integers(&conn, &calls(run_id, None, None, None, 3, 2), "call_order"), vec![3, 4, 5]);
    assert_eq!(integers(&conn, &calls(run_id, Some("gem"), None, None, 50, -1), "call_order"), vec![1, 4, 7, 10]);
    assert_eq!(integers(&conn, &calls(run_id, None, Some("gem"), None, 50, 0), "call_order"), Vec::<i64>::new());
    assert_eq!(integers(&conn, &calls(run_id, None, Some("gemm"), None, 2, 0), "op_call_index"), vec![1, 2]);
    assert_eq!(integers(&conn, &calls(run_id, None, None, Some(6), 50, 0), "call_order"), vec![6]);
    assert_eq!(integers(&conn, &calls(run_id, Some("gemm"), None, Some(6), 50, 0), "call_order"), Vec::<i64>::new());
    assert_eq!(integers(&conn, &calls(run_id + 1, None, None, None, 50, 0), "call_order"), Vec::<i64>::new());
}

#[test]
fn the_context_of_a_call_is_around_it() {
    let (conn, run_id) = filled();
    assert_eq!(
        integers(&conn, &call_context(run_id, 6, 2), "call_order"),
        vec![4, 5, 6, 7, 8]
    );
    assert_eq!(integers(&conn, &call_context(run_id, 1, 5), "call_order"), vec![1, 2, 3, 4, 5, 6]);
    assert_eq!(integers(&conn, &call_context(run_id, 12, 0), "call_order"), vec![11, 12]);
    assert!(has_context(i64::MAX - 5, 5));
    assert!(!has_context(i64::MAX - 4, 5));
    assert!(!has_context(i64::MIN, 1));
}

#[test]
fn device_times_are_read_from_the_shortest_on() {
    let (conn, run_id) = filled();
    let times = column(&conn, &call_stats(run_id, None, Some("gemm"), None), "device_time_us");
    assert_eq!(times, vec![Value::Real(1.0), Value::Real(4.0), Value::Real(7.0), Value::Real(10.0)]);
    assert_eq!(column(&conn, &call_stats(run_id, None, None, Some(3)), "device_time_us"), vec![Value::Real(3.0)]);
}

#[test]
fn totals_add_the_operations_up() {
    let (conn, run_id) = filled();
    let all = totals(run_id);
    assert_eq!(integers(&conn, &all, "unique_ops"), vec![2]);
    assert_eq!(integers(&conn, &all, "call_count"), vec![12]);
    assert_eq!(column(&conn, &all, "total_device_time_us"), vec![Value::Real(78.0)]);
    assert_eq!(column(&conn, &all, "avg_occupancy_pct"), vec![Value::Null]);
}

#[test]
fn runs_are_listed_and_deleted_with_their_calls() {
    let (conn, run_id) = filled();
    let newest: i64 = conn.query_row(LATEST_RUN, [], |row| row.get(0)).unwrap();
    assert_eq!(newest, run_id);
    let (total_calls, unique_ops): (i64, i64) =
        conn.query_row(RUNS, [], |row| Ok((row.get("total_calls")?, row.get("unique_ops")?))).unwrap();
    assert_eq!((total_calls, unique_ops), (12, 2));
    let changed = run(&conn, &delete_run(run_id));
    assert_eq!(deleted(run_id, changed), Ok(()));
    let left: i64 = conn.query_row("SELECT COUNT(*) FROM gpu_calls", [], |row| row.get(0)).unwrap();
    assert_eq!(left, 0);
    let changed = run(&conn, &delete_run(run_id));
    assert_eq!(deleted(run_id, changed), Err(format!("run {run_id} not found")));
}

#[test]
fn settings_are_accepted_by_the_database() {
    let conn = Connection::open_in_memory().unwrap();
    conn.execute_batch(SCHEMA).unwrap();
    conn.execute_batch(TUNE_FOR_IMPORT).unwrap();
    conn.execute_batch(READ_ONLY).unwrap();
    assert!(conn.execute("DELETE FROM runs", []).is_err());
}

fn columns_of(conn: &Connection, table: &str) -> Vec<String> {
    let mut stmt = conn.prepare(&table_info(table)).unwrap();
    let names = stmt.query_map([], |row| row.get::<_, String>(1)).unwrap();
    names.map(|name| name.unwrap()).collect()
}

#[test]
fn old_tables_get_the_columns_they_lack() {
    let conn = Connection::open_in_memory().unwrap();
    conn.execute_batch("CREATE TABLE gpu_calls (run_id INTEGER, grid TEXT); CREATE TABLE op_summary (run_id INTEGER);")
        .unwrap();
    let changes = call_table_changes(&columns_of(&conn, "gpu_calls"));
    assert_eq!(changes.len(), 5);
    assert_eq!(changes[0], "ALTER TABLE gpu_calls ADD COLUMN occupancy_pct REAL;");
    assert_eq!(changes[4], "ALTER TABLE gpu_calls ADD COLUMN block TEXT;");
    for change in &changes {
        conn.execute_batch(change).unwrap();
    }
    let changes = summary_table_changes(&columns_of(&conn, "op_summary"));
    assert_eq!(changes.len(), 3);
    for change in &changes {
        conn.execute_batch(change).unwrap();
    }
    assert!(call_table_changes(&columns_of(&conn, "gpu_calls")).is_empty());
    assert!(summary_table_changes(&columns_of(&conn, "op_summary")).is_empty());
    assert!(call_table_changes(&columns_of(&conn, "missing")).is_empty());
    assert_eq!(table_info("gpu_calls"), "PRAGMA table_info(gpu_calls)");
}

#[test]
fn sorts_go_round() {
    let keys = ["device", "free", "total", "count", "avg_device", "avg_free", "occupancy", "first"];
    let mut sort = SortSpec::from_key("device");
    for key in keys {
        assert_eq!(sort.key, key);
        assert_eq!(SortSpec::from_key(key), sort);
        assert_eq!(sort.order_sql(), if key == "first" { "ASC" } else { "DESC" });
        sort = sort.next();
    }
    assert_eq!(sort.key, "device");
    assert_eq!(SortSpec::from_key("unknown").key, "device");
    assert_eq!(SortSpec::new("unknown", "U", "u", true).next().key, "free");
    assert_eq!(SortSpec::all()[6].label, "Occupancy avg");
}

#[test]
fn every_sort_is_a_column_of_the_summary() {
    let (conn, run_id) = filled();
    for sort in SortSpec::all() {
        assert_eq!(column(&conn, &summary(run_id, Some("e"), sort, 5), "op_name").len(), 2);
    }
}

fn at(index: usize) -> Bracket {
    Bracket { lower: index, upper: index, between: measure(-1.0) }
}

#[test]
fn statistics_are_taken_from_sorted_values() {
    let between = Bracket { lower: 1, upper: 2, between: measure(2.5) };
    let figures = Figures {
        total: measure(10.0),
        mean: measure(2.5),
        p50: between,
        p75: at(2),
        p95: at(3),
        p99: at(3),
        p999: at(0),
    };
    let values = vec![measure(1.0), measure(2.0), measure(3.0), measure(4.0)];
    let stats = CallStats::from_sorted_values(&values, &figures);
    assert_eq!(stats.count, 4);
    assert_eq!(stats.total, measure(10.0));
    assert_eq!(stats.min, Some(measure(1.0)));
    assert_eq!(stats.mean, Some(measure(2.5)));
    assert_eq!(stats.max, Some(measure(4.0)));
    assert_eq!(stats.p50, Some(measure(2.5)));
    assert_eq!(stats.p75, Some(measure(3.0)));
    assert_eq!(stats.p95, Some(measure(4.0)));
    assert_eq!(stats.p999, Some(measure(1.0)));
    let one = CallStats::from_sorted_values(&vec![measure(7.0)], &figures);
    assert_eq!((one.count, one.p50, one.p999), (1, Some(measure(7.0)), Some(measure(7.0))));
    let none = CallStats::from_sorted_values(&Vec::new(), &figures);
    assert_eq!((none.count, none.min, none.p50), (0, None, None));
    assert_eq!(none.total, CallStats::default().total);
    assert_eq!(TotalsRow::default().call_count, 0);
}
