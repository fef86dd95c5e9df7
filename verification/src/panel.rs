//! The tables of the terminal viewer.
use vstd::prelude::*;

use crate::db::{CallRow, SummaryRow};
use crate::decimal::int_text;
use crate::measure::Measure;
use crate::text::opt_view;
use crate::title::{calls_title, titled};
use crate::tui::{App, Focus};
use crate::view::{
    figure_views, fmt_kib, integer, kib_or_nothing, number_or_nothing, opt, opt_text,
    text_or_nothing, trunc, truncated, whole, Figure, FigureView,
};

verus! {

/// How wide a column is.
#[derive(Clone, Copy, Debug, PartialEq, Eq, Structural)]
pub enum Width {
    Exactly(u16),
    AtLeast(u16),
}

/// A column of a table.
#[derive(Clone, Copy, Debug)]
pub struct Column {
    pub title: &'static str,
    pub width: Width,
}

/// A row of a table.
#[derive(Debug)]
pub struct Row {
    pub cells: Vec<Figure>,
    /// Whether the row stands out.
    pub marked: bool,
}

/// What a row of a table is.
pub struct RowView {
    pub cells: Seq<FigureView>,
    pub marked: bool,
}

impl View for Row {
    type V = RowView;

    open spec fn view(&self) -> RowView {
        RowView { cells: figure_views(self.cells@), marked: self.marked }
    }
}

/// What the rows of a table are.
pub open spec fn table_view(rows: Seq<Row>) -> Seq<RowView> {
    rows.map_values(|row: Row| row@)
}

/// A table.
#[derive(Debug)]
pub struct Panel {
    pub title: String,
    pub columns: Vec<Column>,
    pub rows: Vec<Row>,
    pub selected: Option<usize>,
}

/// How many characters of a name a table shows.
pub const NAME_WIDTH: usize = 72;

/// The columns of the operations.
pub open spec fn summary_columns() -> Seq<Column> {
    seq![
        Column { title: "First", width: Width::Exactly(7) },
        Column { title: "Calls", width: Width::Exactly(7) },
        Column { title: "Dev ms", width: Width::Exactly(10) },
        Column { title: "Avg us", width: Width::Exactly(10) },
        Column { title: "Occ %", width: Width::Exactly(8) },
        Column { title: "Kernel", width: Width::AtLeast(24) },
    ]
}

/// The row of an operation.
pub open spec fn summary_cells(row: SummaryRow) -> RowView {
    RowView {
        cells: seq![
            whole(row.first_call_order),
            whole(row.call_count),
            FigureView::Thousandth(row.total_device_time_us),
            FigureView::Number(row.avg_device_time_us),
            number_or_nothing(row.avg_occupancy_pct),
            FigureView::Text(truncated(row.op_name@, NAME_WIDTH as nat)),
        ],
        marked: false,
    }
}

fn summary_row(row: &SummaryRow) -> (r: Row)
    ensures
        r@ == summary_cells(*row),
{
    let cells: Vec<Figure> = vec![
        integer(row.first_call_order),
        integer(row.call_count),
        Figure::Thousandth(row.total_device_time_us),
        Figure::Number(row.avg_device_time_us),
        opt(row.avg_occupancy_pct),
        Figure::Text(trunc(row.op_name.as_str(), NAME_WIDTH)),
    ];
    assert(figure_views(cells@) =~= summary_cells(*row).cells);
    Row { cells, marked: false }
}

/// Whether a table is that of the operations.
pub open spec fn is_summary_panel(panel: Panel, app: App) -> bool {
    &&& panel.title@ == (if app.focus == Focus::Summary {
        "Summary *"@
    } else {
        "Summary"@
    })
    &&& panel.columns@ == summary_columns()
    &&& table_view(panel.rows@) == app.summary@.map_values(|row: SummaryRow| summary_cells(row))
    &&& panel.selected == app.summary_selected
}

/// The table of the operations.
pub fn summary_panel(app: &App) -> (r: Panel)
    ensures
        r.title@ == (if app.focus == Focus::Summary {
            "Summary *"@
        } else {
            "Summary"@
        }),
        r.columns@ == summary_columns(),
        table_view(r.rows@) == app.summary@.map_values(|row: SummaryRow| summary_cells(row)),
        r.selected == app.summary_selected,
        is_summary_panel(r, *app),
{
    let title: &'static str = if app.focus == Focus::Summary {
        "Summary *"
    } else {
        "Summary"
    };
    let columns: Vec<Column> = vec![
        Column { title: "First", width: Width::Exactly(7) },
        Column { title: "Calls", width: Width::Exactly(7) },
        Column { title: "Dev ms", width: Width::Exactly(10) },
        Column { title: "Avg us", width: Width::Exactly(10) },
        Column { title: "Occ %", width: Width::Exactly(8) },
        Column { title: "Kernel", width: Width::AtLeast(24) },
    ];
    assert(columns@ =~= summary_columns());
    let mut rows: Vec<Row> = Vec::new();
    let mut i: usize = 0;
    while i < app.summary.len()
        invariant
            i <= app.summary@.len(),
            rows@.len() == i,
            forall|k: int| 0 <= k < i ==> (#[trigger] rows@[k])@ == summary_cells(app.summary@[k]),
        decreases app.summary@.len() - i,
    {
        rows.push(summary_row(&app.summary[i]));
        i += 1;
    }
    assert(table_view(rows@) =~= app.summary@.map_values(|row: SummaryRow| summary_cells(row)));
    Panel { title: title.to_owned(), columns, rows, selected: app.summary_selected }
}

/// The columns of the calls.
pub open spec fn call_columns() -> Seq<Column> {
    seq![
        Column { title: "Order", width: Width::Exactly(8) },
        Column { title: "Dev", width: Width::Exactly(5) },
        Column { title: "Stream", width: Width::Exactly(7) },
        Column { title: "Dev us", width: Width::Exactly(10) },
        Column { title: "Free us", width: Width::Exactly(10) },
        Column { title: "Occ", width: Width::Exactly(6) },
        Column { title: "Blk/SM", width: Width::Exactly(8) },
        Column { title: "Warp/SM", width: Width::Exactly(9) },
        Column { title: "ShmKiB", width: Width::Exactly(9) },
        Column { title: "Grid", width: Width::Exactly(12) },
        Column { title: "Block", width: Width::Exactly(12) },
    ]
}

/// The row of a call.
pub open spec fn call_cells(row: CallRow) -> RowView {
    RowView {
        cells: seq![
            whole(row.call_order),
            text_or_nothing(opt_view(row.device)),
            text_or_nothing(opt_view(row.stream)),
            FigureView::Number(row.device_time_us),
            FigureView::Number(row.free_time_us),
            number_or_nothing(row.occupancy_pct),
            number_or_nothing(row.blocks_per_sm),
            number_or_nothing(row.warps_per_sm),
            kib_or_nothing(row.shared_memory),
            text_or_nothing(opt_view(row.grid)),
            text_or_nothing(opt_view(row.block)),
        ],
        marked: false,
    }
}

fn call_row(row: &CallRow) -> (r: Row)
    ensures
        r@ == call_cells(*row),
{
    let cells: Vec<Figure> = vec![
        integer(row.call_order),
        opt_text(&row.device),
        opt_text(&row.stream),
        Figure::Number(row.device_time_us),
        Figure::Number(row.free_time_us),
        opt(row.occupancy_pct),
        opt(row.blocks_per_sm),
        opt(row.warps_per_sm),
        fmt_kib(row.shared_memory),
        opt_text(&row.grid),
        opt_text(&row.block),
    ];
    assert(figure_views(cells@) =~= call_cells(*row).cells);
    Row { cells, marked: false }
}

/// Whether a table is that of the calls, but for its title.
pub open spec fn is_calls_panel(panel: Panel, app: App) -> bool {
    &&& panel.columns@ == call_columns()
    &&& table_view(panel.rows@) == app.calls@.map_values(|row: CallRow| call_cells(row))
    &&& panel.selected == app.calls_selected
}

/// The table of the calls. Its title moves where it is too long.
pub fn calls_panel(app: &mut App, area_width: u16) -> (r: Panel)
    requires
        old(app).well_formed(),
    ensures
        (r.title@, final(app).scroll@) == titled(*old(app), area_width),
        r.columns@ == call_columns(),
        table_view(r.rows@) == old(app).calls@.map_values(|row: CallRow| call_cells(row)),
        r.selected == old(app).calls_selected,
        is_calls_panel(r, *old(app)),
        final(app).well_formed(),
        final(app).control() == old(app).control(),
        final(app).same_tables(App { scroll: final(app).scroll, ..*old(app) }),
{
    let title = calls_title(app, area_width);
    let columns: Vec<Column> = vec![
        Column { title: "Order", width: Width::Exactly(8) },
        Column { title: "Dev", width: Width::Exactly(5) },
        Column { title: "Stream", width: Width::Exactly(7) },
        Column { title: "Dev us", width: Width::Exactly(10) },
        Column { title: "Free us", width: Width::Exactly(10) },
        Column { title: "Occ", width: Width::Exactly(6) },
        Column { title: "Blk/SM", width: Width::Exactly(8) },
        Column { title: "Warp/SM", width: Width::Exactly(9) },
        Column { title: "ShmKiB", width: Width::Exactly(9) },
        Column { title: "Grid", width: Width::Exactly(12) },
        Column { title: "Block", width: Width::Exactly(12) },
    ];
    assert(columns@ =~= call_columns());
    let rows = call_rows(&app.calls);
    Panel { title, columns, rows, selected: app.calls_selected }
}

fn call_rows(calls: &Vec<CallRow>) -> (r: Vec<Row>)
    ensures
        table_view(r@) == calls@.map_values(|row: CallRow| call_cells(row)),
{
    let mut rows: Vec<Row> = Vec::new();
    let mut i: usize = 0;
    while i < calls.len()
        invariant
            i <= calls@.len(),
            rows@.len() == i,
            forall|k: int| 0 <= k < i ==> (#[trigger] rows@[k])@ == call_cells(calls@[k]),
        decreases calls@.len() - i,
    {
        rows.push(call_row(&calls[i]));
        i += 1;
    }
    assert(table_view(rows@) =~= calls@.map_values(|row: CallRow| call_cells(row)));
    rows
}

/// The columns of the calls around the selected one.
pub open spec fn context_columns() -> Seq<Column> {
    seq![
        Column { title: "Order", width: Width::Exactly(8) },
        Column { title: "Dev us", width: Width::Exactly(10) },
        Column { title: "Free us", width: Width::Exactly(10) },
        Column { title: "Kernel", width: Width::AtLeast(24) },
    ]
}

/// The row of a call around the selected one, which itself stands out.
pub open spec fn context_cells(row: CallRow, selected_order: Option<i64>) -> RowView {
    RowView {
        cells: seq![
            whole(row.call_order),
            FigureView::Number(row.device_time_us),
            FigureView::Number(row.free_time_us),
            FigureView::Text(truncated(row.op_name@, NAME_WIDTH as nat)),
        ],
        marked: Some(row.call_order) == selected_order,
    }
}

fn context_row(row: &CallRow, selected_order: Option<i64>) -> (r: Row)
    ensures
        r@ == context_cells(*row, selected_order),
{
    let cells: Vec<Figure> = vec![
        integer(row.call_order),
        Figure::Number(row.device_time_us),
        Figure::Number(row.free_time_us),
        Figure::Text(trunc(row.op_name.as_str(), NAME_WIDTH)),
    ];
    assert(figure_views(cells@) =~= context_cells(*row, selected_order).cells);
    let marked = match selected_order {
        Some(order) => order == row.call_order,
        None => false,
    };
    Row { cells, marked }
}

/// Whether a table is that of the calls around the selected one.
pub open spec fn is_context_panel(panel: Panel, app: App) -> bool {
    &&& panel.title@ == "Call context +/-5"@
    &&& panel.columns@ == context_columns()
    &&& table_view(panel.rows@) == app.context@.map_values(
        |row: CallRow| context_cells(row, app.selected_order()),
    )
    &&& panel.selected is None
}

/// The table of the calls around the selected one.
pub fn context_panel(app: &App) -> (r: Panel)
    ensures
        r.title@ == "Call context +/-5"@,
        r.columns@ == context_columns(),
        table_view(r.rows@) == app.context@.map_values(
            |row: CallRow| context_cells(row, app.selected_order()),
        ),
        r.selected is None,
        is_context_panel(r, *app),
{
    let selected_order = app.selected_call();
    let columns: Vec<Column> = vec![
        Column { title: "Order", width: Width::Exactly(8) },
        Column { title: "Dev us", width: Width::Exactly(10) },
        Column { title: "Free us", width: Width::Exactly(10) },
        Column { title: "Kernel", width: Width::AtLeast(24) },
    ];
    assert(columns@ =~= context_columns());
    let mut rows: Vec<Row> = Vec::new();
    let mut i: usize = 0;
    while i < app.context.len()
        invariant
            i <= app.context@.len(),
            selected_order == app.selected_order(),
            rows@.len() == i,
            forall|k: int|
                0 <= k < i ==> (#[trigger] rows@[k])@ == context_cells(
                    app.context@[k],
                    selected_order,
                ),
        decreases app.context@.len() - i,
    {
        rows.push(context_row(&app.context[i], selected_order));
        i += 1;
    }
    assert(table_view(rows@) =~= app.context@.map_values(
        |row: CallRow| context_cells(row, app.selected_order()),
    ));
    Panel { title: "Call context +/-5".to_owned(), columns, rows, selected: None }
}

/// Each row of a table has a cell for each of its columns.
pub proof fn rows_fill_their_columns(op: SummaryRow, call: CallRow, selected_order: Option<i64>)
    ensures
        summary_cells(op).cells.len() == summary_columns().len(),
        call_cells(call).cells.len() == call_columns().len(),
        context_cells(call, selected_order).cells.len() == context_columns().len(),
{
}

/// A number, or nothing where it is missing.
pub open spec fn amount(x: Option<Measure>) -> FigureView {
    match x {
        Some(x) => FigureView::Number(x),
        None => FigureView::Text(Seq::empty()),
    }
}

/// A text, or nothing where it is missing.
pub open spec fn words_or_none(s: Option<String>) -> FigureView {
    match s {
        Some(s) => FigureView::Text(s@),
        None => FigureView::Text(Seq::empty()),
    }
}

/// Whether a row of a table shows a figure under a title: there is such a column, and
/// the figure stands in it.
pub open spec fn shows(
    columns: Seq<Column>,
    cells: Seq<FigureView>,
    title: Seq<char>,
    figure: FigureView,
) -> bool {
    &&& columns.len() == cells.len()
    &&& exists|i: int| 0 <= i < columns.len() && (#[trigger] columns[i]).title@ == title
    &&& forall|i: int|
        0 <= i < columns.len() && (#[trigger] columns[i]).title@ == title ==> cells[i] == figure
}

/// The table of operations shows of each, under its title, its first call, how many
/// calls it has, their time in all in milliseconds and their average time, their
/// average occupancy, and its name.
pub proof fn operations_are_shown_under_their_titles(row: SummaryRow)
    ensures
        ({
            let columns = summary_columns();
            let cells = summary_cells(row).cells;
            &&& columns.len() == 6
            &&& shows(columns, cells, "First"@, FigureView::Text(int_text(row.first_call_order as int)))
            &&& shows(columns, cells, "Calls"@, FigureView::Text(int_text(row.call_count as int)))
            &&& shows(columns, cells, "Dev ms"@, FigureView::Thousandth(row.total_device_time_us))
            &&& shows(columns, cells, "Avg us"@, FigureView::Number(row.avg_device_time_us))
            &&& shows(columns, cells, "Occ %"@, amount(row.avg_occupancy_pct))
            &&& shows(columns, cells, "Kernel"@, FigureView::Text(truncated(row.op_name@, 72)))
        }),
{
    reveal_strlit("Avg us");
    reveal_strlit("Calls");
    reveal_strlit("Dev ms");
    reveal_strlit("First");
    reveal_strlit("Kernel");
    reveal_strlit("Occ %");
    assert("Avg us"@.len() == 6);
    assert("Calls"@.len() == 5);
    assert("Dev ms"@.len() == 6);
    assert("First"@.len() == 5);
    assert("Kernel"@.len() == 6);
    assert("Occ %"@.len() == 5);
    assert("Avg us"@[0] == 'A');
    assert("Dev ms"@[0] == 'D');
    assert("Kernel"@[0] == 'K');
    assert("Calls"@[0] == 'C');
    assert("First"@[0] == 'F');
    assert("Occ %"@[0] == 'O');
    let columns = summary_columns();
    assert(columns[0].title == "First");
    assert(columns[1].title == "Calls");
    assert(columns[2].title == "Dev ms");
    assert(columns[3].title == "Avg us");
    assert(columns[4].title == "Occ %");
    assert(columns[5].title == "Kernel");
}

/// The table of calls shows of each, under its title, its number, its device and
/// stream, its times, its occupancy and what it takes of a multiprocessor, its shared
/// memory in kibibytes, and its extents.
pub proof fn calls_are_shown_under_their_titles(row: CallRow)
    ensures
        ({
            let columns = call_columns();
            let cells = call_cells(row).cells;
            &&& columns.len() == 11
            &&& shows(columns, cells, "Order"@, FigureView::Text(int_text(row.call_order as int)))
            &&& shows(columns, cells, "Dev"@, words_or_none(row.device))
            &&& shows(columns, cells, "Stream"@, words_or_none(row.stream))
            &&& shows(columns, cells, "Dev us"@, FigureView::Number(row.device_time_us))
            &&& shows(columns, cells, "Free us"@, FigureView::Number(row.free_time_us))
            &&& shows(columns, cells, "Occ"@, amount(row.occupancy_pct))
            &&& shows(columns, cells, "Blk/SM"@, amount(row.blocks_per_sm))
            &&& shows(columns, cells, "Warp/SM"@, amount(row.warps_per_sm))
            &&& shows(columns, cells, "ShmKiB"@, match row.shared_memory {
                Some(bytes) => FigureView::Kib(bytes),
                None => FigureView::Text(Seq::empty()),
            })
            &&& shows(columns, cells, "Grid"@, words_or_none(row.grid))
            &&& shows(columns, cells, "Block"@, words_or_none(row.block))
        }),
{
    reveal_strlit("Blk/SM");
    reveal_strlit("Block");
    reveal_strlit("Dev");
    reveal_strlit("Dev us");
    reveal_strlit("Free us");
    reveal_strlit("Grid");
    reveal_strlit("Occ");
    reveal_strlit("Order");
    reveal_strlit("ShmKiB");
    reveal_strlit("Stream");
    reveal_strlit("Warp/SM");
    assert("Blk/SM"@.len() == 6);
    assert("Block"@.len() == 5);
    assert("Dev"@.len() == 3);
    assert("Dev us"@.len() == 6);
    assert("Free us"@.len() == 7);
    assert("Grid"@.len() == 4);
    assert("Occ"@.len() == 3);
    assert("Order"@.len() == 5);
    assert("ShmKiB"@.len() == 6);
    assert("Stream"@.len() == 6);
    assert("Warp/SM"@.len() == 7);
    assert("Blk/SM"@[0] == 'B');
    assert("Dev us"@[0] == 'D');
    assert("ShmKiB"@[0] == 'S');
    assert("Stream"@[0] == 'S');
    assert("Block"@[0] == 'B');
    assert("Order"@[0] == 'O');
    assert("Dev"@[0] == 'D');
    assert("Occ"@[0] == 'O');
    assert("Free us"@[0] == 'F');
    assert("Warp/SM"@[0] == 'W');
    assert("ShmKiB"@[1] == 'h');
    assert("Stream"@[1] == 't');
    let columns = call_columns();
    assert(columns[0].title == "Order");
    assert(columns[1].title == "Dev");
    assert(columns[2].title == "Stream");
    assert(columns[3].title == "Dev us");
    assert(columns[4].title == "Free us");
    assert(columns[5].title == "Occ");
    assert(columns[6].title == "Blk/SM");
    assert(columns[7].title == "Warp/SM");
    assert(columns[8].title == "ShmKiB");
    assert(columns[9].title == "Grid");
    assert(columns[10].title == "Block");
}

/// The table of the calls around the selected one shows of each, under its title, its
/// number, its times and its name. The selected one stands out, and no other.
pub proof fn calls_around_are_shown_under_their_titles(row: CallRow, selected_order: Option<i64>)
    ensures
        ({
            let columns = context_columns();
            let cells = context_cells(row, selected_order).cells;
            &&& columns.len() == 4
            &&& shows(columns, cells, "Order"@, FigureView::Text(int_text(row.call_order as int)))
            &&& shows(columns, cells, "Dev us"@, FigureView::Number(row.device_time_us))
            &&& shows(columns, cells, "Free us"@, FigureView::Number(row.free_time_us))
            &&& shows(columns, cells, "Kernel"@, FigureView::Text(truncated(row.op_name@, 72)))
        }),
        context_cells(row, selected_order).marked <==> selected_order is Some && row.call_order
            == selected_order->0,
        !call_cells(row).marked,
{
    reveal_strlit("Dev us");
    reveal_strlit("Free us");
    reveal_strlit("Kernel");
    reveal_strlit("Order");
    assert("Dev us"@.len() == 6);
    assert("Free us"@.len() == 7);
    assert("Kernel"@.len() == 6);
    assert("Order"@.len() == 5);
    assert("Dev us"@[0] == 'D');
    assert("Kernel"@[0] == 'K');
    let columns = context_columns();
    assert(columns[0].title == "Order");
    assert(columns[1].title == "Dev us");
    assert(columns[2].title == "Free us");
    assert(columns[3].title == "Kernel");
}

/// Each table has a row for each of what it shows, in the same order, and the row is
/// selected in it that is selected. A star stands in the title of the operations where
/// the keys move among them. Around the selected call, that call stands out.
pub proof fn tables_show_each_row(
    operations: Panel,
    calls: Panel,
    context: Panel,
    app: App,
    i: int,
)
    requires
        is_summary_panel(operations, app),
        is_calls_panel(calls, app),
        is_context_panel(context, app),
        i >= 0,
    ensures
        operations.rows@.len() == app.summary@.len(),
        i < app.summary@.len() ==> operations.rows@[i]@ == summary_cells(app.summary@[i]),
        operations.selected == app.summary_selected,
        operations.title@ == "Summary *"@ <==> app.focus == Focus::Summary,
        operations.title@ == "Summary"@ <==> app.focus == Focus::Calls,
        calls.rows@.len() == app.calls@.len(),
        i < app.calls@.len() ==> calls.rows@[i]@ == call_cells(app.calls@[i]),
        calls.selected == app.calls_selected,
        context.rows@.len() == app.context@.len(),
        i < app.context@.len() ==> context.rows@[i]@ == context_cells(
            app.context@[i],
            app.selected_order(),
        ),
        app.calls_selected is Some && app.calls_selected->0 < app.calls@.len() && i
            < app.context@.len() ==> (context.rows@[i]@.marked <==> app.context@[i].call_order
            == app.calls@[app.calls_selected->0 as int].call_order),
{
    reveal_strlit("Summary *");
    reveal_strlit("Summary");
    assert("Summary *"@.len() == 9);
    assert("Summary"@.len() == 7);
    let ops = table_view(operations.rows@);
    let rows = table_view(calls.rows@);
    let near = table_view(context.rows@);
    assert(ops.len() == operations.rows@.len());
    assert(rows.len() == calls.rows@.len());
    assert(near.len() == context.rows@.len());
    if i < app.summary@.len() {
        assert(ops[i] == operations.rows@[i]@);
    }
    if i < app.calls@.len() {
        assert(rows[i] == calls.rows@[i]@);
    }
    if i < app.context@.len() {
        assert(near[i] == context.rows@[i]@);
    }
}

} // verus!
