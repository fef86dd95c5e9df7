use gpu_trace_viewer::db::{CallRow, CallStats, RunRow, SummaryRow, TotalsRow};
use gpu_trace_viewer::listing::{
    call_row, run_header, run_row, top_row, CALLS_HEADER, RUNS_HEADER, TOP_HEADER,
};
use gpu_trace_viewer::measure::Measure;
use gpu_trace_viewer::panel::{calls_panel, context_panel, summary_panel, Panel, Width};
use gpu_trace_viewer::query::SqlValue;
use gpu_trace_viewer::title::{calls_title, scrolling_text};
use gpu_trace_viewer::tui::{
    loads, move_state, select_first, App, Ask, Focus, InputMode, Key, Load, Outcome, Reload, Scroll,
};
use gpu_trace_viewer::view::{
    call_stats_line, empty_dash, fmt_kib, fmt_us, input_line, opt, prompt, top_lines, trunc, Figure, Span, Tone,
};

fn measure(value: f64) -> Measure {
    Measure { bits: value.to_bits() }
}

fn number(measure: &Measure) -> f64 {
    f64::from_bits(measure.bits)
}

/// A figure as it might be written.
fn shown(figure: &Figure) -> String {
    match figure {
        Figure::Text(text) => text.clone(),
        Figure::Number(x) => format!("{:.3}", number(x)),
        Figure::Thousandth(x) => format!("{:.3}", number(x) / 1000.0),
        Figure::Kib(x) => format!("{}KiB", number(x) / 1024.0),
    }
}

fn line(spans: &[Span]) -> String {
    spans.iter().map(|span| shown(&span.text)).collect()
}

fn run(id: i64, label: Option<&str>) -> RunRow {
    RunRow {
        id,
        label: label.map(str::to_string),
        source_type: "trace".to_string(),
        source_path: format!("/traces/{id}.json"),
        imported_at: "2024-01-02T03:04:05".to_string(),
        total_calls: 3,
        unique_ops: 2,
    }
}

fn op(name: &str, first: i64) -> SummaryRow {
    SummaryRow {
        run_id: 1,
        first_call_order: first,
        category: "kernel".to_string(),
        op_name: name.to_string(),
        call_count: 4,
        total_device_time_us: measure(1500.0),
        total_free_time_us: measure(500.0),
        total_time_us: measure(2000.0),
        avg_device_time_us: measure(375.0),
        avg_free_time_us: measure(125.0),
        avg_time_us: measure(500.0),
        avg_occupancy_pct: None,
        min_occupancy_pct: None,
        max_occupancy_pct: None,
        min_device_time_us: measure(1.0),
        min_free_time_us: measure(1.0),
        min_time_us: measure(1.0),
        max_device_time_us: measure(1.0),
        max_free_time_us: measure(1.0),
        max_time_us: measure(1.0),
    }
}

fn call(order: i64) -> CallRow {
    CallRow {
        run_id: 1,
        call_order: order,
        op_call_index: 2,
        category: "kernel".to_string(),
        op_name: format!("op {order}"),
        device_time_us: measure(1.5),
        occupancy_pct: Some(measure(50.0)),
        blocks_per_sm: None,
        warps_per_sm: Some(measure(8.0)),
        shared_memory: Some(measure(2048.0)),
        grid: Some("8x1x1".to_string()),
        block: None,
        free_time_us: measure(0.25),
        total_time_us: measure(1.75),
        start_ts_us: None,
        end_ts_us: None,
        device: Some("0".to_string()),
        stream: None,
        pid: None,
        tid: None,
        correlation: None,
        external_id: None,
    }
}

fn viewer() -> App {
    let mut app = App::new(vec![run(9, Some("newest")), run(4, None)], 200, 100);
    app.show_totals(TotalsRow {
        unique_ops: 3,
        call_count: 12,
        total_device_time_us: measure(4500.0),
        total_free_time_us: measure(1500.0),
        total_time_us: measure(6000.0),
        avg_occupancy_pct: Some(measure(33.0)),
    });
    app.show_summary(vec![op("gemm", 1), op("relu", 2), op("softmax", 5)]);
    app.show_calls(vec![call(10), call(20)]);
    app.show_context(vec![call(9), call(10), call(11)]);
    app
}

fn ints(ask: &Ask) -> Vec<i64> {
    match ask {
        Ask::Read(statement) => statement
            .params
            .iter()
            .filter_map(|value| match value {
                SqlValue::Integer(n) => Some(*n),
                _ => None,
            })
            .collect(),
        other => panic!("{other:?}"),
    }
}

fn texts(ask: &Ask) -> Vec<String> {
    match ask {
        Ask::Read(statement) => statement
            .params
            .iter()
            .filter_map(|value| match value {
                SqlValue::Text(s) => Some(s.clone()),
                _ => None,
            })
            .collect(),
        other => panic!("{other:?}"),
    }
}

#[test]
fn selections_stay_in_their_table() {
    assert_eq!(select_first(0), None);
    assert_eq!(select_first(5), Some(0));
    assert_eq!(move_state(None, 0, true), None);
    assert_eq!(move_state(Some(3), 0, false), None);
    assert_eq!(move_state(None, 3, true), Some(1));
    assert_eq!(move_state(Some(2), 3, true), Some(2));
    assert_eq!(move_state(Some(0), 3, false), Some(0));
    assert_eq!(move_state(Some(9), 3, false), Some(2));
    assert_eq!(move_state(move_state(Some(1), 3, true), 3, false), Some(1));
}

#[test]
fn a_viewer_without_runs_asks_nothing() {
    let mut app = App::new(Vec::new(), 200, 200);
    for load in loads(Reload::All) {
        assert!(matches!(app.begin(load), Ask::Nothing));
    }
    assert_eq!(app.run_id(), None);
    assert_eq!(app.run_label(), "no runs");
    assert_eq!(app.on_key(Key::Char('r')), Outcome::Reload(Reload::Nothing));
    assert_eq!(app.on_key(Key::Char('j')), Outcome::Reload(Reload::Calls));
    assert_eq!(app.summary_selected, None);
    assert_eq!(app.selected_op, None);
    assert_eq!(app.on_key(Key::Enter), Outcome::Reload(Reload::Nothing));
    assert_eq!(app.calls_title_detail(), "all kernels");
}

#[test]
fn a_summary_selects_its_first_operation() {
    let mut app = viewer();
    assert_eq!(app.summary_selected, Some(0));
    assert_eq!(app.selected_op.as_deref(), Some("gemm"));
    assert_eq!(app.calls_selected, Some(0));
    app.show_summary(Vec::new());
    assert_eq!(app.summary_selected, None);
    assert_eq!(app.selected_op, None);
    app.call_order = Some(3);
    app.show_summary(vec![op("x", 1)]);
    assert_eq!(app.selected_op, None);
}

#[test]
fn parts_are_read_for_what_is_asked() {
    let mut app = viewer();
    assert_eq!(
        loads(Reload::All),
        vec![Load::Totals, Load::Summary, Load::Calls, Load::Context, Load::CallStats]
    );
    assert_eq!(loads(Reload::Tables)[0], Load::Summary);
    assert_eq!(loads(Reload::Calls), vec![Load::Calls, Load::Context, Load::CallStats]);
    assert_eq!(loads(Reload::Context), vec![Load::Context]);
    assert!(loads(Reload::Nothing).is_empty());
    assert_eq!(ints(&app.begin(Load::Totals)), vec![9]);
    assert_eq!(ints(&app.begin(Load::Summary)), vec![9, 200]);
    let ask = app.begin(Load::Calls);
    assert_eq!(ints(&ask), vec![9, 100, 0]);
    assert_eq!(texts(&ask), vec!["gemm"]);
    assert_eq!(texts(&app.begin(Load::CallStats)), vec!["gemm"]);
    app.filter = "ge".to_string();
    app.call_order = Some(7);
    assert_eq!(texts(&app.begin(Load::Calls)), vec!["%ge%", "gemm"]);
    assert_eq!(ints(&app.begin(Load::CallStats)), vec![9, 7]);
}

#[test]
fn the_selected_call_is_shown_among_its_neighbours() {
    let mut app = viewer();
    assert_eq!(app.on_key(Key::Tab), Outcome::Reload(Reload::Nothing));
    assert_eq!(app.focus, Focus::Calls);
    assert_eq!(app.on_key(Key::Down), Outcome::Reload(Reload::Context));
    assert_eq!(app.selected_call(), Some(20));
    assert_eq!(ints(&app.begin(Load::Context)), vec![9, 15, 25]);
    assert!(app.context.is_empty());
    app.calls[1].call_order = i64::MAX;
    assert!(matches!(app.begin(Load::Context), Ask::OutOfRange));
    app.show_calls(Vec::new());
    assert!(matches!(app.begin(Load::Context), Ask::Nothing));
}

#[test]
fn statistics_are_gone_until_they_are_read() {
    let mut app = viewer();
    app.show_call_stats(CallStats { count: 5, ..CallStats::default() });
    app.begin(Load::Calls);
    assert_eq!(app.call_stats.count, 5);
    app.begin(Load::CallStats);
    assert_eq!(app.call_stats.count, 0);
}

#[test]
fn steps_in_the_summary_read_the_calls_of_an_operation() {
    let mut app = viewer();
    app.call_order = Some(3);
    assert_eq!(app.on_key(Key::Char('j')), Outcome::Reload(Reload::Calls));
    assert_eq!(app.summary_selected, Some(1));
    assert_eq!(app.selected_op.as_deref(), Some("relu"));
    assert_eq!(app.call_order, None);
    assert_eq!(app.on_key(Key::Up), Outcome::Reload(Reload::Calls));
    assert_eq!(app.selected_op.as_deref(), Some("gemm"));
    assert_eq!(app.on_key(Key::Char('k')), Outcome::Reload(Reload::Calls));
    assert_eq!(app.summary_selected, Some(0));
    assert_eq!(app.on_key(Key::Enter), Outcome::Reload(Reload::Calls));
    assert_eq!(app.focus, Focus::Calls);
    assert_eq!(app.on_key(Key::Enter), Outcome::Reload(Reload::Nothing));
}

#[test]
fn runs_and_sorts_go_round() {
    let mut app = viewer();
    app.call_order = Some(3);
    assert_eq!(app.on_key(Key::Char('r')), Outcome::Reload(Reload::All));
    assert_eq!(app.run_id(), Some(4));
    assert_eq!(app.run_label(), "#4 /traces/4.json");
    assert_eq!((app.selected_op.clone(), app.call_order), (None, None));
    app.on_key(Key::Char('r'));
    assert_eq!(app.run_label(), "#9 newest");
    assert_eq!(app.on_key(Key::Char('s')), Outcome::Reload(Reload::Tables));
    assert_eq!(app.sort.key, "free");
    app.on_key(Key::Tab);
    app.on_key(Key::Tab);
    assert_eq!(app.focus, Focus::Summary);
}

#[test]
fn a_filter_is_typed() {
    let mut app = viewer();
    assert_eq!(app.on_key(Key::Char('/')), Outcome::Reload(Reload::Nothing));
    assert_eq!(app.input_mode, InputMode::Filter);
    for c in " gqm".chars() {
        assert_eq!(app.on_key(Key::Char(c)), Outcome::Reload(Reload::Nothing));
    }
    app.on_key(Key::Backspace);
    app.on_key(Key::Backspace);
    app.on_key(Key::Tab);
    app.on_key(Key::Char(' '));
    assert_eq!(app.input, " g ");
    assert_eq!(line(&prompt(&app)), "filter>  g ");
    assert_eq!(app.on_key(Key::Enter), Outcome::Reload(Reload::Tables));
    assert_eq!(app.filter, "g");
    assert_eq!(app.input_mode, InputMode::Normal);
    assert_eq!(app.input, "");
    assert_eq!((app.selected_op.clone(), app.call_order), (None, None));
    app.on_key(Key::Char('/'));
    assert_eq!(app.input, "g");
    app.on_key(Key::Enter);
    assert_eq!(app.filter, "g");
}

#[test]
fn the_number_of_a_call_is_typed() {
    let mut app = viewer();
    app.on_key(Key::Char('g'));
    assert_eq!(app.input_mode, InputMode::CallOrder);
    app.on_key(Key::Char('4'));
    app.on_key(Key::Char('2'));
    assert_eq!(line(&prompt(&app)), "call_order> 42");
    assert_eq!(app.on_key(Key::Enter), Outcome::Reload(Reload::Calls));
    assert_eq!(app.call_order, Some(42));
    assert_eq!(app.selected_op, None);
    app.on_key(Key::Char('g'));
    assert_eq!(app.input, "42");
    assert_eq!(app.on_key(Key::Enter), Outcome::Reload(Reload::Calls));
    assert_eq!(app.call_order, Some(42));
    app.on_key(Key::Char('g'));
    app.on_key(Key::Char('x'));
    assert_eq!(app.on_key(Key::Enter), Outcome::BadCallOrder);
    assert_eq!(app.call_order, Some(42));
    app.on_key(Key::Backspace);
    app.on_key(Key::Backspace);
    app.on_key(Key::Backspace);
    app.on_key(Key::Backspace);
    assert_eq!(app.on_key(Key::Enter), Outcome::Reload(Reload::Calls));
    assert_eq!(app.call_order, None);
    assert_eq!(app.calls_title_detail(), "all kernels");
}

#[test]
fn a_prompt_is_left() {
    let mut app = viewer();
    app.filter = "abc".to_string();
    app.on_key(Key::Char('/'));
    app.on_key(Key::Char('q'));
    assert_eq!(app.on_key(Key::Esc), Outcome::Reload(Reload::Nothing));
    assert_eq!(app.input_mode, InputMode::Normal);
    assert_eq!(app.filter, "abc");
    assert!(prompt(&app).is_empty());
    assert_eq!(app.on_key(Key::Esc), Outcome::Reload(Reload::Nothing));
    assert_eq!(app.on_key(Key::Other), Outcome::Reload(Reload::Nothing));
    assert_eq!(app.on_key(Key::Char('q')), Outcome::Quit);
}

#[test]
fn clearing_begins_anew() {
    let mut app = viewer();
    app.filter = "abc".to_string();
    app.call_order = Some(5);
    assert_eq!(app.on_key(Key::Char('c')), Outcome::Reload(Reload::Cleared));
    assert_eq!(app.filter, "");
    assert_eq!(app.selected_op, None);
    assert_eq!(app.call_order, None);
    assert_eq!(
        loads(Reload::Cleared),
        vec![Load::ClearedSummary, Load::Calls, Load::Context, Load::CallStats]
    );
    let ask = app.begin(Load::ClearedSummary);
    assert!(texts(&ask).is_empty());
    assert_eq!(ints(&ask), vec![9, 200]);
    app.show_cleared_summary(vec![op("gemm", 1), op("relu", 2)]);
    let ask = app.begin(Load::Calls);
    assert!(texts(&ask).is_empty());
    assert_eq!(ints(&ask), vec![9, 100, 0]);
    app.show_calls(vec![call(1), call(2)]);
    assert_eq!(ints(&app.begin(Load::Context)), vec![9, 1, 6]);
    app.show_context(vec![call(1), call(2)]);
    assert!(texts(&app.begin(Load::CallStats)).is_empty());
    app.show_call_stats(CallStats { count: 2, ..CallStats::default() });
    assert_eq!(app.filter, "");
    assert_eq!(app.selected_op, None);
    assert_eq!(app.call_order, None);
    assert_eq!((app.summary_selected, app.calls_selected), (Some(0), Some(0)));
    assert_eq!(calls_title(&mut app, 40), "Calls - all kernels");
    app.show_cleared_summary(Vec::new());
    assert_eq!((app.summary_selected, app.selected_op.clone()), (None, None));
}

#[test]
fn sorting_eight_times_leads_back() {
    let mut app = viewer();
    app.filter = "e".to_string();
    for _ in 0..8 {
        assert_eq!(app.on_key(Key::Char('s')), Outcome::Reload(Reload::Tables));
        app.begin(Load::Summary);
        app.show_summary(vec![op("relu", 2)]);
    }
    assert_eq!(app.sort.key, "device");
    assert_eq!(app.filter, "e");
    assert_eq!(app.selected_op.as_deref(), Some("relu"));
}

#[test]
fn texts_are_cut_off() {
    assert_eq!(trunc("kernel", 6), "kernel");
    assert_eq!(trunc("kernel", 5), "kern~");
    assert_eq!(trunc("kernel", 1), "~");
    assert_eq!(trunc("kernel", 0), "~");
    assert_eq!(trunc("~", 0), "~");
    assert_eq!(trunc("kern~", 5), "kern~");
    assert_eq!(trunc("", 0), "");
    assert_eq!(trunc("\u{e9}\u{e9}\u{e9}", 2), "\u{e9}~");
    assert_eq!(empty_dash(""), "-");
    assert_eq!(empty_dash("a"), "a");
}

#[test]
fn figures_may_be_missing() {
    assert_eq!(shown(&opt(None)), "");
    assert_eq!(shown(&opt(Some(measure(1.0)))), "1.000");
    assert_eq!(shown(&fmt_us(None)), "-");
    assert_eq!(shown(&fmt_us(Some(measure(2.0)))), "2.000");
    assert_eq!(shown(&fmt_kib(None)), "");
    assert!(matches!(fmt_kib(Some(measure(1024.0))), Figure::Kib(_)));
}

#[test]
fn the_top_lines_tell_what_is_shown() {
    let mut app = viewer();
    let lines = top_lines(&app, 200);
    assert_eq!(line(&lines[0]), "#9 newest | sort Device total | filter - | call_order -");
    assert_eq!(line(&lines[1]), "unique ops 3  calls 12  device ms 4.500  free ms 1.500  occ % 33.000");
    assert_eq!(
        line(&lines[2]),
        "keys q quit  tab focus  j/k move  / filter  g call order  s sort  r run  c clear"
    );
    assert_eq!(lines[0][0].tone, Tone::Value);
    assert_eq!(lines[0][1].tone, Tone::Separator);
    assert_eq!(lines[1][0].tone, Tone::Metric);
    assert_eq!(lines[2][1].tone, Tone::Key);
    app.runs[0].label = Some("x".repeat(100));
    app.filter = "a rather long filter".to_string();
    app.call_order = Some(1234);
    let lines = top_lines(&app, 80);
    assert_eq!(
        line(&lines[0]),
        format!("#9 {}~ | sort Device total | filter a rather lo~ | call_order 1234", "x".repeat(16))
    );
    assert_eq!(line(&top_lines(&app, 0)[0][0..1]).chars().count(), 12);
    assert_eq!(line(&top_lines(&app, 500)[0][0..1]).chars().count(), 48);
}

#[test]
fn lines_below_the_tables_are_made() {
    assert_eq!(line(&input_line("filter", "ab")), "filter> ab");
    let stats = CallStats { count: 2, total: measure(3.0), min: Some(measure(1.0)), ..CallStats::default() };
    let spans = call_stats_line(&stats);
    assert_eq!(
        line(&spans),
        "device stats count 2  total 3.000  min 1.000  mean -  max -  p50 -  p75 -  p95 -  p99 -  p99.9 - us"
    );
    assert_eq!(spans[0].tone, Tone::Label);
    assert_eq!(spans[21].tone, Tone::Separator);
}

fn scroll() -> Scroll {
    Scroll { key: String::new(), offset: 0, tick: 0 }
}

#[test]
fn long_titles_move_with_every_second_look() {
    let mut state = scroll();
    let seen: Vec<String> = (0..18).map(|_| scrolling_text(&mut state, "abcdef", 4)).collect();
    assert_eq!(
        seen,
        vec![
            "abcd", "abcd", "bcde", "bcde", "cdef", "cdef", "def ", "def ", "ef  ", "ef  ", "f   ", "f   ", "   a",
            "   a", "  ab", "  ab", " abc", " abc"
        ]
    );
    assert_eq!(scrolling_text(&mut state, "abcdef", 4), "abcd");
    assert_eq!(scrolling_text(&mut state, "abc", 4), "abc");
    assert_eq!((state.key.as_str(), state.offset, state.tick), ("4:abc", 0, 0));
    assert_eq!(scrolling_text(&mut state, "abc", 0), "");
    assert_eq!(state.key, "4:abc");
}

#[test]
fn the_title_of_the_calls_names_them() {
    let mut app = viewer();
    assert_eq!(calls_title(&mut app, 40), "Calls - gemm");
    app.focus = Focus::Calls;
    assert_eq!(calls_title(&mut app, 40), "Calls * - gemm");
    app.call_order = Some(10);
    assert_eq!(calls_title(&mut app, 40), "Calls * - op 10");
    app.show_calls(Vec::new());
    assert_eq!(calls_title(&mut app, 40), "Calls * - call_order 10");
    assert_eq!(calls_title(&mut app, 16), "Calls * - call");
    assert_eq!(calls_title(&mut app, 12), "Calls * - ");
    assert_eq!(calls_title(&mut app, 10), "Calls *~");
    assert_eq!(calls_title(&mut app, 1), "~");
}

fn rows(panel: &Panel) -> Vec<Vec<String>> {
    panel.rows.iter().map(|row| row.cells.iter().map(shown).collect()).collect()
}

fn titles(panel: &Panel) -> Vec<&'static str> {
    panel.columns.iter().map(|column| column.title).collect()
}

#[test]
fn the_tables_show_their_rows() {
    let mut app = viewer();
    app.summary[1].op_name = "k".repeat(80);
    app.summary[1].avg_occupancy_pct = Some(measure(12.0));
    let panel = summary_panel(&app);
    assert_eq!(panel.title, "Summary *");
    assert_eq!(titles(&panel), vec!["First", "Calls", "Dev ms", "Avg us", "Occ %", "Kernel"]);
    assert_eq!(panel.columns[5].width, Width::AtLeast(24));
    assert_eq!(rows(&panel)[0], vec!["1", "4", "1.500", "375.000", "", "gemm"]);
    assert_eq!(rows(&panel)[1][4], "12.000");
    assert_eq!(rows(&panel)[1][5], format!("{}~", "k".repeat(71)));
    assert_eq!(panel.selected, Some(0));
    let panel = calls_panel(&mut app, 60);
    assert_eq!(panel.title, "Calls - gemm");
    assert_eq!(
        rows(&panel)[0],
        vec!["10", "0", "", "1.500", "0.250", "50.000", "", "8.000", "2KiB", "8x1x1", ""]
    );
    assert_eq!(panel.columns.len(), 11);
    assert_eq!(panel.columns[10].width, Width::Exactly(12));
    let panel = context_panel(&app);
    assert_eq!(panel.title, "Call context +/-5");
    assert_eq!(titles(&panel), vec!["Order", "Dev us", "Free us", "Kernel"]);
    assert_eq!(rows(&panel)[1], vec!["10", "1.500", "0.250", "op 10"]);
    assert_eq!(panel.rows.iter().map(|row| row.marked).collect::<Vec<_>>(), vec![false, true, false]);
    app.on_key(Key::Tab);
    assert_eq!(summary_panel(&app).title, "Summary");
}

#[test]
fn listings_have_a_cell_for_each_column() {
    let cells: Vec<String> = run_row(&run(4, None)).iter().map(shown).collect();
    assert_eq!(cells.join("\t"), "4\t\ttrace\t3\t2\t2024-01-02T03:04:05\t/traces/4.json");
    assert_eq!(cells.len(), RUNS_HEADER.split('\t').count());
    let cells: Vec<String> = top_row(&op("gemm", 1)).iter().map(shown).collect();
    assert_eq!(cells.join("\t"), "1\t4\t1.500\t0.500\t2.000\t375.000\t\tgemm");
    assert_eq!(cells.len(), TOP_HEADER.split('\t').count());
    let cells: Vec<String> = call_row(&call(10)).iter().map(shown).collect();
    assert_eq!(cells.join("\t"), "10\t2\t0\t\t1.500\t0.250\t1.750\t50.000\top 10");
    assert_eq!(cells.len(), CALLS_HEADER.split('\t').count());
    assert_eq!(run_header(7), "run_id: 7");
}
