use std::path::PathBuf;

use gpu_trace_viewer::calls_csv::{
    parse_float, parse_optional_float, parse_optional_text, parse_text, read_call, Cell, CsvCall, CsvImport, CsvTimes,
};
use gpu_trace_viewer::category::{
    category_text, compile_regex, parse_categories, selected_name, taken, FilterError,
};
use gpu_trace_viewer::event::{parse_device_event, parse_occupancy_pct, DeviceEvent};
use gpu_trace_viewer::importer::{
    trace_filters, EventTimes, ImportCsvOptions, ImportTraceOptions, TraceImport,
};
use gpu_trace_viewer::measure::Measure;
use gpu_trace_viewer::query::SqlValue;
use gpu_trace_viewer::record::{finalize_run, Sums};
use gpu_trace_viewer::source::{
    csv_run, default_db_path, expand_user, is_gzip, missing_csv, missing_trace, source_size, trace_run, Expansion, Source,
};
use gpu_trace_viewer::stream::{free_time, StreamEnds};
use gpu_trace_viewer::summary::{Summary, SummaryAgg};
use gpu_trace_viewer::table::Table;
use gpu_trace_viewer::trace::{
    read_event, trace_dim_to_string, trace_value_to_string, Leaf, TraceEvent,
};

fn measure(value: f64) -> Measure {
    Measure { bits: value.to_bits() }
}

fn number(measure: Measure) -> f64 {
    f64::from_bits(measure.bits)
}

fn readings_of(event: &TraceEvent) -> Table<Measure> {
    let mut readings = Table::new();
    if let Some(args) = &event.args {
        for (_, leaf) in &args.entries {
            if let Leaf::Text(text) = leaf {
                if let Ok(value) = text.parse::<f64>() {
                    readings.insert(text.clone(), measure(value));
                }
            }
        }
    }
    readings
}

fn event(text: &str) -> TraceEvent {
    let value: serde_json::Value = serde_json::from_str(text).unwrap();
    read_event(&value).unwrap()
}

fn call(text: &str) -> Option<DeviceEvent> {
    let event = event(text);
    parse_device_event(&event, None, &readings_of(&event))
}

#[test]
fn a_complete_event_is_a_call() {
    let call = call(
        r#"{"ph":"X","cat":"kernel","name":"gemm","dur":12.5,"ts":100,"pid":7,"tid":"stream 3",
            "args":{"est. achieved occupancy %":42,"blocks per SM":1.5,"warps per SM":"6.25","shared memory":2048,
                    "grid":[128,1,1],"block":[32,"4",null],"device":0,"stream":19,"correlation":5001,"External id":"12"}}"#,
    )
    .unwrap();
    assert_eq!(call.category, "kernel");
    assert_eq!(call.op_name, "gemm");
    assert_eq!(number(call.device_time_us), 12.5);
    assert_eq!(number(call.start_us), 100.0);
    assert_eq!(call.occupancy_pct.map(number), Some(42.0));
    assert_eq!(call.blocks_per_sm.map(number), Some(1.5));
    assert_eq!(call.warps_per_sm.map(number), Some(6.25));
    assert_eq!(call.shared_memory.map(number), Some(2048.0));
    assert_eq!(call.grid.as_deref(), Some("128x1x1"));
    assert_eq!(call.block.as_deref(), Some("32x4x"));
    assert_eq!(call.device, "0");
    assert_eq!(call.stream, "19");
    assert_eq!(call.pid, "7");
    assert_eq!(call.tid, "stream 3");
    assert_eq!(call.correlation, "5001");
    assert_eq!(call.external_id, "12");
}

#[test]
fn an_event_without_arguments_is_on_its_process_and_thread() {
    let call = call(r#"{"ph":"X","name":{"a":[1,true]},"dur":1,"ts":-2.5,"pid":1.5,"tid":false}"#).unwrap();
    assert_eq!(call.category, "");
    assert_eq!(call.op_name, r#"{"a":[1,true]}"#);
    assert_eq!(number(call.start_us), -2.5);
    assert_eq!(call.device, "1.5");
    assert_eq!(call.stream, "false");
    assert_eq!(call.occupancy_pct, None);
    assert_eq!(call.grid, None);
    assert_eq!(call.correlation, "");
}

#[test]
fn incomplete_events_are_no_calls() {
    for text in [
        r#"{"ph":"B","name":"k","dur":1,"ts":2}"#,
        r#"{"name":"k","dur":1,"ts":2}"#,
        r#"{"ph":1,"name":"k","dur":1,"ts":2}"#,
        r#"{"ph":"X","dur":1,"ts":2}"#,
        r#"{"ph":"X","name":"k","ts":2}"#,
        r#"{"ph":"X","name":"k","dur":"1","ts":2}"#,
        r#"{"ph":"X","name":"k","dur":1}"#,
        r#"{"ph":"X","name":"k","dur":1,"ts":null}"#,
    ] {
        assert!(call(text).is_none(), "{text}");
    }
    for text in ["[1]", "null", "3", "\"x\""] {
        let value: serde_json::Value = serde_json::from_str(text).unwrap();
        assert!(read_event(&value).is_none());
    }
}

#[test]
fn only_wanted_categories_are_calls() {
    let event = event(r#"{"ph":"X","cat":"kernel","name":"k","dur":1,"ts":2}"#);
    let none = Table::new();
    let kernels = parse_categories("gpu_memcpy, kernel", false).unwrap();
    let copies = parse_categories("gpu_memcpy", false).unwrap();
    assert!(parse_device_event(&event, kernels.as_ref(), &none).is_some());
    assert!(parse_device_event(&event, copies.as_ref(), &none).is_none());
    assert!(parse_device_event(&event, None, &none).is_some());
}

#[test]
fn the_first_occupancy_that_is_a_number_counts() {
    let event = event(
        r#"{"args":{"est. achieved occupancy %":"n/a","occupancy_pct":[],"occupancy":"37.5","achieved_occupancy":1}}"#,
    );
    let readings = readings_of(&event);
    assert_eq!(parse_occupancy_pct(event.args.as_ref(), &readings).map(number), Some(37.5));
    assert_eq!(parse_occupancy_pct(None, &readings), None);
}

#[test]
fn members_are_written_as_json_does() {
    let event = event(r#"{"a":null,"b":true,"c":1e3,"d":"x","e":[1,"y"],"f":{"z":0.5},"args":[1],"g":[]}"#);
    let text = |key: &str| trace_value_to_string(event.members.get(key));
    assert_eq!(text("a").as_deref(), Some(""));
    assert_eq!(text("b").as_deref(), Some("true"));
    assert_eq!(text("c").as_deref(), Some("1000.0"));
    assert_eq!(text("d").as_deref(), Some("x"));
    assert_eq!(text("e").as_deref(), Some(r#"[1,"y"]"#));
    assert_eq!(text("f").as_deref(), Some(r#"{"z":0.5}"#));
    assert_eq!(text("missing"), None);
    assert!(event.args.is_none());
    let dim = |key: &str| trace_dim_to_string(event.members.get(key).unwrap());
    assert_eq!(dim("a"), None);
    assert_eq!(dim("d").as_deref(), Some("x"));
    assert_eq!(dim("e").as_deref(), Some("1xy"));
    assert_eq!(dim("g").as_deref(), Some(""));
}

#[test]
fn categories_are_named_by_a_list() {
    let set = parse_categories(" kernel , gpu_memset,, kernel,a", false).unwrap();
    assert_eq!(category_text(&set), "a,gpu_memset,kernel");
    let set = set.unwrap();
    assert!(set.contains("kernel"));
    assert!(set.contains("a"));
    assert!(!set.contains("k"));
    assert_eq!(category_text(&parse_categories("", true).unwrap()), "*");
    let again = parse_categories(&category_text(&Some(set)), false).unwrap();
    assert_eq!(category_text(&again), "a,gpu_memset,kernel");
}

#[test]
fn categories_must_be_named_or_all() {
    for list in ["", " ", ",", " , ,"] {
        let error = parse_categories(list, false).unwrap_err();
        assert!(matches!(error, FilterError::NoCategories));
        assert_eq!(error.message(), "--categories must not be empty unless --all-categories is used");
        assert!(parse_categories(list, true).unwrap().is_none());
    }
}

#[test]
fn patterns_select_names() {
    let gemm = compile_regex(Some("^gemm_[0-9]+$"), "--include-name").unwrap();
    assert!(selected_name("gemm_12", gemm.as_ref(), None));
    assert!(!selected_name("my gemm_12", gemm.as_ref(), None));
    assert!(!selected_name("gemm_12", None, gemm.as_ref()));
    assert!(selected_name("relu", None, gemm.as_ref()));
    assert!(selected_name("relu", None, None));
    assert!(compile_regex(Some(""), "--include-name").unwrap().is_none());
    assert!(compile_regex(None, "--include-name").unwrap().is_none());
}

#[test]
fn names_are_taken_by_both_patterns() {
    assert!(taken(None, None));
    assert!(taken(Some(true), Some(false)));
    assert!(!taken(Some(false), None));
    assert!(!taken(Some(true), Some(true)));
    assert!(!taken(None, Some(true)));
}

#[test]
fn broken_patterns_are_refused() {
    let error = compile_regex(Some("("), "--exclude-name").unwrap_err();
    assert!(matches!(error, FilterError::InvalidPattern { .. }));
    assert_eq!(error.message(), "--exclude-name is invalid");
}

fn trace_options() -> ImportTraceOptions {
    ImportTraceOptions::new(PathBuf::from("db.sqlite"), PathBuf::from("trace.json"))
}

#[test]
fn options_begin_with_all_kernels() {
    let options = trace_options();
    assert_eq!(options.db_path, PathBuf::from("db.sqlite"));
    assert_eq!(options.trace_path, PathBuf::from("trace.json"));
    assert_eq!(options.categories, "kernel");
    assert!(!options.all_categories);
    assert_eq!(number(options.min_device_time_us), 0.0);
    assert_eq!(options.batch_size, 1000);
    assert_eq!(options.progress_interval, 100_000);
    let options = ImportCsvOptions::new(PathBuf::from("db.sqlite"), PathBuf::from("calls.csv"));
    assert_eq!(options.csv_path, PathBuf::from("calls.csv"));
    assert_eq!(options.label, None);
    assert_eq!(options.batch_size, 1000);
    assert_eq!(options.progress_interval, 100_000);
}

#[test]
fn filters_of_a_trace_are_refused_one_by_one() {
    let mut options = trace_options();
    assert!(trace_filters(&options).is_ok());
    options.exclude_name = Some("[".to_string());
    assert_eq!(trace_filters(&options).unwrap_err().message(), "--exclude-name is invalid");
    options.include_name = Some("*".to_string());
    assert_eq!(trace_filters(&options).unwrap_err().message(), "--include-name is invalid");
    options.categories = ",".to_string();
    assert!(matches!(trace_filters(&options).unwrap_err(), FilterError::NoCategories));
    options.all_categories = true;
    assert_eq!(trace_filters(&options).unwrap_err().message(), "--include-name is invalid");
}

#[test]
fn streams_remember_when_they_were_busy() {
    let mut ends = StreamEnds::new();
    let device = "0".to_string();
    let first = "7".to_string();
    let second = "8".to_string();
    assert_eq!(ends.previous(&device, &first), None);
    ends.observe(&device, &first, measure(10.0));
    ends.observe(&device, &second, measure(3.0));
    ends.observe(&device, &first, measure(4.0));
    assert_eq!(ends.previous(&device, &first).map(number), Some(10.0));
    assert_eq!(ends.previous(&device, &second).map(number), Some(3.0));
    assert_eq!(ends.previous(&second, &device), None);
}

#[test]
fn free_time_is_never_negative() {
    assert_eq!(number(free_time(None)), 0.0);
    assert_eq!(number(free_time(Some(measure(2.5)))), 2.5);
    assert_eq!(number(free_time(Some(measure(-2.5)))), 0.0);
    assert_eq!(number(free_time(Some(measure(f64::NAN)))), 0.0);
}

fn import_of(options: &ImportTraceOptions) -> TraceImport {
    TraceImport::new(4, trace_filters(options).unwrap(), options)
}

fn feed(import: &mut TraceImport, name: &str, start: f64, dur: f64) -> Option<(i64, bool, Option<String>)> {
    let text = format!(
        r#"{{"ph":"X","cat":"kernel","name":"{name}","dur":{dur},"ts":{start},"args":{{"device":0,"stream":7,"occupancy":"50"}}}}"#
    );
    let event = event(&text);
    let readings = readings_of(&event);
    let call = import.decode(Some(&event), &readings)?;
    let previous = import.previous_end(&call).map(number);
    let gap = previous.map(|previous| start - previous);
    let free = number(free_time(gap.map(measure)));
    let times = EventTimes {
        end_us: measure(start + dur),
        gap_us: measure(gap.unwrap_or(0.0)),
        total_time_us: measure(dur + free),
    };
    import.accept(call, times).map(|accepted| (accepted.op_call_index, accepted.flush, accepted.progress))
}

#[test]
fn calls_are_numbered_and_written_in_batches() {
    let mut options = trace_options();
    options.batch_size = 2;
    options.progress_interval = 3;
    let mut import = import_of(&options);
    assert_eq!(import.decode(None, &Table::new()).map(|call| call.op_name), None);
    assert_eq!(feed(&mut import, "a", 0.0, 2.0), Some((1, false, None)));
    assert_eq!(feed(&mut import, "b", 5.0, 1.0), Some((1, true, None)));
    let written = import.flush().unwrap();
    assert_eq!(written.rows.len(), 2);
    assert!(written.sql.starts_with("INSERT INTO gpu_calls (run_id,call_order,op_call_index,"));
    assert_eq!(written.sql.matches('?').count(), 22);
    let row = &written.rows[1];
    assert!(matches!(row[0], SqlValue::Integer(4)));
    assert!(matches!(row[1], SqlValue::Integer(2)));
    assert!(matches!(&row[4], SqlValue::Text(name) if name == "b"));
    assert!(matches!(row[12], SqlValue::Number(free) if number(free) == 3.0));
    assert!(matches!(row[13], SqlValue::Number(total) if number(total) == 4.0));
    assert!(matches!(row[15], SqlValue::Number(end) if number(end) == 6.0));
    assert!(import.flush().is_none());
    assert_eq!(
        feed(&mut import, "a", 6.0, 1.0),
        Some((2, false, Some("run 4: imported 3 GPU calls, decoded 4 events".to_string())))
    );
    let result = import.result(PathBuf::from("db.sqlite"));
    assert_eq!(result.run_id, 4);
    assert_eq!(result.gpu_calls, 3);
    assert_eq!(result.unique_ops, 2);
    assert_eq!(result.db_path, PathBuf::from("db.sqlite"));
}

#[test]
fn calls_that_are_left_out_keep_their_stream_busy() {
    let mut options = trace_options();
    options.min_device_time_us = measure(2.0);
    options.exclude_name = Some("skip".to_string());
    options.progress_interval = 0;
    options.batch_size = 0;
    let mut import = import_of(&options);
    assert_eq!(feed(&mut import, "short", 0.0, 1.0), None);
    assert_eq!(feed(&mut import, "skip me", 0.0, 8.0), None);
    assert_eq!(feed(&mut import, "kept", 9.0, 2.0), Some((1, true, None)));
    let written = import.flush().unwrap();
    assert!(matches!(written.rows[0][12], SqlValue::Number(free) if number(free) == 1.0));
    assert_eq!(import.summary.total(), 1);
}

#[test]
fn a_summary_bounds_its_calls() {
    let mut summary = Summary::new();
    let first = summary.add_summary(5, "kernel", "a", measure(3.0), measure(1.0), measure(4.0), None);
    let second = summary.add_summary(6, "kernel", "b", measure(1.0), measure(0.0), measure(1.0), Some(measure(30.0)));
    let other = format!("{:?}", summary.get(1));
    let third = summary.add_summary(7, "kernel", "a", measure(2.0), measure(5.0), measure(7.0), Some(measure(20.0)));
    assert_eq!((first.slot, first.op_call_index), (0, 1));
    assert_eq!((second.slot, second.op_call_index), (1, 1));
    assert_eq!((third.slot, third.op_call_index), (0, 2));
    assert_eq!(summary.total(), 3);
    assert_eq!(summary.len(), 2);
    assert_eq!(format!("{:?}", summary.get(1)), other);
    let a = summary.get(0);
    assert_eq!(a.first_call_order, 5);
    assert_eq!(a.call_count, 2);
    assert_eq!(number(a.min_device_time_us), 2.0);
    assert_eq!(number(a.max_device_time_us), 3.0);
    assert_eq!(number(a.min_free_time_us), 1.0);
    assert_eq!(number(a.max_free_time_us), 5.0);
    assert_eq!(number(a.min_time_us), 4.0);
    assert_eq!(number(a.max_time_us), 7.0);
    assert_eq!(a.min_occupancy_pct().map(number), Some(20.0));
    assert_eq!(a.max_occupancy_pct().map(number), Some(20.0));
}

#[test]
fn averages_of_no_calls_are_zero_or_nothing() {
    let mut agg = SummaryAgg::new(1, "kernel", "a");
    assert_eq!(number(agg.avg(measure(5.0))), 0.0);
    assert_eq!(agg.avg_occupancy_pct(measure(5.0)), None);
    assert_eq!(agg.min_occupancy_pct(), None);
    assert_eq!(agg.max_occupancy_pct(), None);
    agg.add(measure(1.0), measure(0.0), measure(1.0), None);
    assert_eq!(number(agg.avg(measure(5.0))), 5.0);
    assert_eq!(agg.avg_occupancy_pct(measure(5.0)), None);
    agg.add(measure(1.0), measure(0.0), measure(1.0), Some(measure(8.0)));
    assert_eq!(agg.avg_occupancy_pct(measure(8.0)).map(number), Some(8.0));
}

#[test]
fn an_import_ends_with_its_operations() {
    let mut summary = Summary::new();
    summary.add_summary(1, "kernel", "a", measure(3.0), measure(1.0), measure(4.0), None);
    let sums = Sums {
        total_device_time_us: measure(3.0),
        total_free_time_us: measure(1.0),
        total_time_us: measure(4.0),
        mean_device_time_us: measure(3.0),
        mean_free_time_us: measure(1.0),
        mean_time_us: measure(4.0),
        mean_occupancy_pct: measure(0.0),
    };
    let ending = finalize_run(9, &summary, &vec![sums]);
    assert!(ending.operations.sql.starts_with("INSERT INTO op_summary (run_id,first_call_order,"));
    assert_eq!(ending.operations.sql.matches('?').count(), 20);
    assert_eq!(ending.operations.rows.len(), 1);
    assert_eq!(ending.operations.rows[0].len(), 20);
    assert!(matches!(ending.operations.rows[0][0], SqlValue::Integer(9)));
    assert!(matches!(ending.operations.rows[0][11], SqlValue::Null));
    assert_eq!(ending.run.sql, "UPDATE runs SET total_calls = ?, unique_ops = ? WHERE id = ?");
    assert!(matches!(ending.run.params[0], SqlValue::Integer(1)));
    assert!(matches!(ending.run.params[1], SqlValue::Integer(1)));
    assert!(matches!(ending.run.params[2], SqlValue::Integer(9)));
}

fn row(cells: &[(&str, &str)]) -> Table<Cell> {
    let mut row = Table::new();
    for (name, text) in cells {
        let cell = Cell {
            text: text.to_string(),
            number: text.parse::<f64>().ok().map(measure),
        };
        row.insert(name.to_string(), cell);
    }
    row
}

#[test]
fn the_first_name_of_a_row_counts_even_if_empty() {
    let row = row(&[("op_name", ""), ("name", "b"), ("free_time_us", "x"), ("duration_us", "2.5")]);
    assert_eq!(parse_text(&row, &["op_name", "name"], "-"), "-");
    assert_eq!(parse_text(&row, &["missing", "name"], "-"), "b");
    assert_eq!(parse_optional_text(&row, &["op_name"]), None);
    assert_eq!(parse_optional_text(&row, &["name"]).as_deref(), Some("b"));
    assert_eq!(number(parse_float(&row, &["device_time_us", "duration_us"], measure(1.0))), 2.5);
    assert_eq!(number(parse_float(&row, &["free_time_us"], measure(1.0))), 1.0);
    assert_eq!(parse_optional_float(&row, &["free_time_us"]), None);
    assert_eq!(parse_optional_float(&row, &[]), None);
}

#[test]
fn a_row_without_cells_is_a_kernel() {
    let call = read_call(&row(&[]));
    assert_eq!(call.category, "kernel");
    assert_eq!(call.op_name, "");
    assert_eq!(number(call.device_time_us), 0.0);
    assert_eq!(call.call_order, None);
    assert_eq!(call.total_time_us, None);
    assert_eq!(call.end_ts_us, None);
    assert_eq!(call.grid, None);
    assert_eq!(call.device, "");
}

fn csv_call(cells: &[(&str, &str)]) -> (CsvCall, CsvTimes) {
    let call = read_call(&row(cells));
    let times = CsvTimes {
        time_us: measure(number(call.device_time_us) + number(call.free_time_us)),
        end_us: measure(number(call.start_ts_us) + number(call.device_time_us)),
    };
    (call, times)
}

#[test]
fn rows_are_numbered_unless_they_are() {
    let mut options = ImportCsvOptions::new(PathBuf::from("db.sqlite"), PathBuf::from("calls.csv"));
    options.batch_size = 3;
    options.progress_interval = 2;
    let mut import = CsvImport::new(8, &options);
    let (call, times) = csv_call(&[("name", "a"), ("device_time_us", "2"), ("free_time_us", "1"), ("ts_us", "10")]);
    let accepted = import.accept(call, times);
    assert_eq!((accepted.slot, accepted.op_call_index, accepted.flush), (0, 1, false));
    assert_eq!(accepted.progress, None);
    let (call, times) = csv_call(&[
        ("call_order", "41.9"),
        ("name", "a"),
        ("device_time_us", "4"),
        ("total_time_us", "100"),
        ("end_ts_us", "7"),
        ("occupancy", "12"),
    ]);
    let accepted = import.accept(call, times);
    assert_eq!((accepted.slot, accepted.op_call_index, accepted.flush), (0, 2, false));
    assert_eq!(accepted.progress.as_deref(), Some("run 8: imported 2 CSV rows"));
    let (call, times) = csv_call(&[("category", "gpu_memcpy"), ("name", "a")]);
    let accepted = import.accept(call, times);
    assert_eq!((accepted.slot, accepted.op_call_index, accepted.flush), (1, 1, true));
    let written = import.flush().unwrap();
    assert!(matches!(written.rows[0][1], SqlValue::Integer(1)));
    assert!(matches!(written.rows[0][13], SqlValue::Number(total) if number(total) == 3.0));
    assert!(matches!(written.rows[0][15], SqlValue::Number(end) if number(end) == 12.0));
    assert!(matches!(written.rows[1][1], SqlValue::Integer(41)));
    assert!(matches!(written.rows[1][13], SqlValue::Number(total) if number(total) == 100.0));
    assert!(matches!(written.rows[1][15], SqlValue::Number(end) if number(end) == 7.0));
    assert!(matches!(written.rows[2][1], SqlValue::Integer(3)));
    // The summary adds the times up, whatever total a row gives.
    assert_eq!(number(import.summary.get(0).max_time_us), 4.0);
    let result = import.result(PathBuf::from("db.sqlite"));
    assert_eq!((result.run_id, result.gpu_calls, result.unique_ops), (8, 3, 2));
}

#[test]
fn batches_of_any_size_write_the_same_calls() {
    let events = [("a", 0.0, 2.0), ("b", 5.0, 1.0), ("skip", 6.0, 1.0), ("a", 9.0, 3.5), ("c", 12.0, 0.5)];
    let mut endings = Vec::new();
    for (batch_size, progress_interval) in [(0, 0), (1, 1), (2, 3), (1000, 100_000)] {
        let mut options = trace_options();
        options.exclude_name = Some("skip".to_string());
        options.batch_size = batch_size;
        options.progress_interval = progress_interval;
        let mut import = import_of(&options);
        let mut rows = Vec::new();
        for (name, start, dur) in events {
            if let Some((_, true, _)) = feed(&mut import, name, start, dur) {
                rows.append(&mut import.flush().unwrap().rows);
            }
        }
        if let Some(mut rest) = import.flush() {
            rows.append(&mut rest.rows);
        }
        assert_eq!(rows.len(), 4);
        let result = import.result(PathBuf::from("db.sqlite"));
        assert_eq!((result.gpu_calls, result.unique_ops), (4, 3));
        let operations: Vec<String> =
            (0..import.summary.len()).map(|slot| format!("{:?}", import.summary.get(slot))).collect();
        endings.push(format!("{rows:?} {operations:?}"));
    }
    assert!(endings.iter().all(|ending| ending == &endings[0]));
}

#[test]
fn a_table_of_calls_reads_back() {
    let mut import = import_of(&trace_options());
    for (name, start, dur) in [("a", 0.25, 2.0), ("b", 5.0, 1.125), ("a", 9.0, 3.5)] {
        feed(&mut import, name, start, dur);
    }
    let written = import.flush().unwrap();
    let begin = written.sql.find('(').unwrap() + 1;
    let end = written.sql.find(')').unwrap();
    let columns: Vec<&str> = written.sql[begin..end].split(',').collect();
    let mut table = CsvImport::new(9, &ImportCsvOptions::new(PathBuf::from("db.sqlite"), PathBuf::from("calls.csv")));
    for values in &written.rows {
        let texts: Vec<String> = values
            .iter()
            .map(|value| match value {
                SqlValue::Null => String::new(),
                SqlValue::Integer(integer) => integer.to_string(),
                SqlValue::Number(measure) => number(*measure).to_string(),
                SqlValue::Text(text) => text.clone(),
            })
            .collect();
        let cells: Vec<(&str, &str)> = columns.iter().copied().zip(texts.iter().map(String::as_str)).collect();
        let (call, times) = csv_call(&cells);
        table.accept(call, times);
    }
    let read = table.flush().unwrap();
    assert_eq!(read.sql, written.sql);
    assert_eq!(read.rows.len(), 3);
    for (read, written) in read.rows.iter().zip(&written.rows) {
        assert!(matches!(read[0], SqlValue::Integer(9)));
        assert_eq!(format!("{:?}", &read[1..]), format!("{:?}", &written[1..]));
    }
    assert_eq!((table.summary.total(), table.summary.len()), (3, 2));
    assert_eq!(format!("{:?}", table.summary.get(0)), format!("{:?}", import.summary.get(0)));
    assert_eq!(format!("{:?}", table.summary.get(1)), format!("{:?}", import.summary.get(1)));
}

#[test]
fn runs_say_where_they_come_from() {
    let source = || Source {
        path: "/tmp/trace.json".to_string(),
        size_bytes: Some(17),
        imported_at: "2024-01-02T03:04:05".to_string(),
        app_version: "1.2.3".to_string(),
    };
    let mut options = trace_options();
    options.label = Some("first".to_string());
    options.include_name = Some("gemm".to_string());
    let filters = trace_filters(&options).unwrap();
    let run = trace_run(&options, &filters.categories, source());
    assert_eq!(run.label.as_deref(), Some("first"));
    assert_eq!(run.source_type, "trace");
    assert_eq!(run.source_path, "/tmp/trace.json");
    assert_eq!(run.source_size_bytes, Some(17));
    assert_eq!(run.imported_at, "2024-01-02T03:04:05");
    assert_eq!(run.app_version, "1.2.3");
    assert_eq!(run.categories, "kernel");
    assert_eq!(run.include_name.as_deref(), Some("gemm"));
    assert_eq!(run.exclude_name, None);
    let options = ImportCsvOptions::new(PathBuf::from("db.sqlite"), PathBuf::from("calls.csv"));
    let run = csv_run(&options, source());
    assert_eq!(run.source_type, "calls_csv");
    assert_eq!(run.categories, "from_csv");
    assert_eq!(number(run.min_device_time_us), 0.0);
}

#[test]
fn paths_begin_at_home_with_a_tilde() {
    assert!(matches!(expand_user("~", true), Expansion::Home));
    assert!(matches!(expand_user("~", false), Expansion::Same));
    assert!(matches!(expand_user("~/a/b", true), Expansion::UnderHome(rest) if rest == "a/b"));
    assert!(matches!(expand_user("~/", true), Expansion::UnderHome(rest) if rest.is_empty()));
    assert!(matches!(expand_user("~/a", false), Expansion::Same));
    assert!(matches!(expand_user("~user/a", true), Expansion::Same));
    assert!(matches!(expand_user("a/~", true), Expansion::Same));
    assert!(matches!(expand_user("", true), Expansion::Same));
}

#[test]
fn files_are_looked_for_and_told_apart() {
    assert_eq!(default_db_path(true, true), "gpu_trace_stats.sqlite");
    assert_eq!(default_db_path(true, false), "gpu_trace_stats.sqlite");
    assert_eq!(default_db_path(false, true), "../gpu_trace_stats.sqlite");
    assert_eq!(default_db_path(false, false), "gpu_trace_stats.sqlite");
    assert!(is_gzip(Some("gz")));
    assert!(!is_gzip(Some("json")));
    assert!(!is_gzip(None));
    assert_eq!(source_size(Some(5)), Some(5));
    assert_eq!(source_size(Some(i64::MAX as u64)), Some(i64::MAX));
    assert_eq!(source_size(Some(i64::MAX as u64 + 1)), None);
    assert_eq!(source_size(None), None);
    assert_eq!(missing_trace("/x"), "trace file not found: /x");
    assert_eq!(missing_csv("/x"), "CSV file not found: /x");
}
