//! What the commands print.
use vstd::prelude::*;

use crate::db::{CallRow, RunRow, SummaryRow};
use crate::decimal::{i64_text, int_text};
use crate::text::{join_texts, opt_view, split_text, split_undoes_join};
use crate::view::{
    figure_views, integer, number_or_nothing, opt, opt_text, text_or_nothing, whole, Figure,
    FigureView,
};

verus! {

/// The columns of the runs.
pub const RUNS_HEADER: &'static str = "id\tlabel\ttype\tcalls\tops\timported_at\tsource";

/// The columns of the operations.
pub const TOP_HEADER: &'static str =
    "first\tcalls\tdevice_ms\tfree_ms\ttotal_ms\tavg_device_us\tocc_pct\top";

/// The columns of the calls.
pub const CALLS_HEADER: &'static str =
    "order\tidx\tdevice\tstream\tdevice_us\tfree_us\ttotal_us\tocc_pct\top";

/// What tells of which run something is.
pub fn run_header(run_id: i64) -> (r: String)
    ensures
        r@ == "run_id: "@ + int_text(run_id as int),
{
    let mut out = "run_id: ".to_owned();
    out.append(i64_text(run_id).as_str());
    out
}

/// The row of a run.
pub open spec fn run_cells(run: RunRow) -> Seq<FigureView> {
    seq![
        whole(run.id),
        text_or_nothing(opt_view(run.label)),
        FigureView::Text(run.source_type@),
        whole(run.total_calls),
        whole(run.unique_ops),
        FigureView::Text(run.imported_at@),
        FigureView::Text(run.source_path@),
    ]
}

/// The row of a run.
pub fn run_row(run: &RunRow) -> (r: Vec<Figure>)
    ensures
        figure_views(r@) == run_cells(*run),
{
    let r: Vec<Figure> = vec![
        integer(run.id),
        opt_text(&run.label),
        Figure::Text(run.source_type.clone()),
        integer(run.total_calls),
        integer(run.unique_ops),
        Figure::Text(run.imported_at.clone()),
        Figure::Text(run.source_path.clone()),
    ];
    assert(figure_views(r@) =~= run_cells(*run));
    r
}

/// The row of an operation.
pub open spec fn top_cells(row: SummaryRow) -> Seq<FigureView> {
    seq![
        whole(row.first_call_order),
        whole(row.call_count),
        FigureView::Thousandth(row.total_device_time_us),
        FigureView::Thousandth(row.total_free_time_us),
        FigureView::Thousandth(row.total_time_us),
        FigureView::Number(row.avg_device_time_us),
        number_or_nothing(row.avg_occupancy_pct),
        FigureView::Text(row.op_name@),
    ]
}

/// The row of an operation.
pub fn top_row(row: &SummaryRow) -> (r: Vec<Figure>)
    ensures
        figure_views(r@) == top_cells(*row),
{
    let r: Vec<Figure> = vec![
        integer(row.first_call_order),
        integer(row.call_count),
        Figure::Thousandth(row.total_device_time_us),
        Figure::Thousandth(row.total_free_time_us),
        Figure::Thousandth(row.total_time_us),
        Figure::Number(row.avg_device_time_us),
        opt(row.avg_occupancy_pct),
        Figure::Text(row.op_name.clone()),
    ];
    assert(figure_views(r@) =~= top_cells(*row));
    r
}

/// The row of a call.
pub open spec fn call_cells(row: CallRow) -> Seq<FigureView> {
    seq![
        whole(row.call_order),
        whole(row.op_call_index),
        text_or_nothing(opt_view(row.device)),
        text_or_nothing(opt_view(row.stream)),
        FigureView::Number(row.device_time_us),
        FigureView::Number(row.free_time_us),
        FigureView::Number(row.total_time_us),
        number_or_nothing(row.occupancy_pct),
        FigureView::Text(row.op_name@),
    ]
}

/// The row of a call.
pub fn call_row(row: &CallRow) -> (r: Vec<Figure>)
    ensures
        figure_views(r@) == call_cells(*row),
{
    let r: Vec<Figure> = vec![
        integer(row.call_order),
        integer(row.op_call_index),
        opt_text(&row.device),
        opt_text(&row.stream),
        Figure::Number(row.device_time_us),
        Figure::Number(row.free_time_us),
        Figure::Number(row.total_time_us),
        opt(row.occupancy_pct),
        Figure::Text(row.op_name.clone()),
    ];
    assert(figure_views(r@) =~= call_cells(*row));
    r
}

/// Whether a row shows a figure under a name of a header.
pub open spec fn lists(
    header: Seq<char>,
    cells: Seq<FigureView>,
    name: Seq<char>,
    figure: FigureView,
) -> bool {
    let names = split_text(header, '\t');
    &&& names.len() == cells.len()
    &&& names.contains(name)
    &&& forall|i: int| 0 <= i < names.len() && #[trigger] names[i] == name ==> cells[i] == figure
}

/// A run is listed with what it is under each name of the header.
pub proof fn runs_are_listed_under_their_names(run: RunRow)
    ensures
        lists(RUNS_HEADER@, run_cells(run), "id"@, FigureView::Text(int_text(run.id as int))),
        lists(RUNS_HEADER@, run_cells(run), "label"@, match run.label {
                Some(label) => FigureView::Text(label@),
                None => FigureView::Text(Seq::empty()),
            }),
        lists(RUNS_HEADER@, run_cells(run), "type"@, FigureView::Text(run.source_type@)),
        lists(RUNS_HEADER@, run_cells(run), "calls"@, FigureView::Text(int_text(run.total_calls as int))),
        lists(RUNS_HEADER@, run_cells(run), "ops"@, FigureView::Text(int_text(run.unique_ops as int))),
        lists(RUNS_HEADER@, run_cells(run), "imported_at"@, FigureView::Text(run.imported_at@)),
        lists(RUNS_HEADER@, run_cells(run), "source"@, FigureView::Text(run.source_path@)),
{
    reveal_strlit("id\tlabel\ttype\tcalls\tops\timported_at\tsource");
    reveal_strlit("calls");
    reveal_strlit("id");
    reveal_strlit("imported_at");
    reveal_strlit("label");
    reveal_strlit("ops");
    reveal_strlit("source");
    reveal_strlit("type");
    assert("calls"@.len() == 5);
    assert("id"@.len() == 2);
    assert("imported_at"@.len() == 11);
    assert("label"@.len() == 5);
    assert("ops"@.len() == 3);
    assert("source"@.len() == 6);
    assert("type"@.len() == 4);
    assert("calls"@[0] == 'c');
    assert("label"@[0] == 'l');
    let names = seq!["id"@, "label"@, "type"@, "calls"@, "ops"@, "imported_at"@, "source"@];
    let tab = seq!['\t'];
    let first_6 = names.drop_last();
    let first_5 = first_6.drop_last();
    let first_4 = first_5.drop_last();
    let first_3 = first_4.drop_last();
    let first_2 = first_3.drop_last();
    let first_1 = first_2.drop_last();
    assert(join_texts(first_1, tab) == "id"@);
    assert(first_2.last() == "label"@);
    assert(join_texts(first_2, tab) == join_texts(first_1, tab) + tab + "label"@);
    assert(first_3.last() == "type"@);
    assert(join_texts(first_3, tab) == join_texts(first_2, tab) + tab + "type"@);
    assert(first_4.last() == "calls"@);
    assert(join_texts(first_4, tab) == join_texts(first_3, tab) + tab + "calls"@);
    assert(first_5.last() == "ops"@);
    assert(join_texts(first_5, tab) == join_texts(first_4, tab) + tab + "ops"@);
    assert(first_6.last() == "imported_at"@);
    assert(join_texts(first_6, tab) == join_texts(first_5, tab) + tab + "imported_at"@);
    assert(names.last() == "source"@);
    assert(join_texts(names, tab) == join_texts(first_6, tab) + tab + "source"@);
    assert(RUNS_HEADER@ =~= join_texts(names, tab));
    assert forall|i: int| 0 <= i < names.len() implies !(#[trigger] names[i]).contains('\t') by {
        assert(!"id"@.contains('\t'));
        assert(!"label"@.contains('\t'));
        assert(!"type"@.contains('\t'));
        assert(!"calls"@.contains('\t'));
        assert(!"ops"@.contains('\t'));
        assert(!"imported_at"@.contains('\t'));
        assert(!"source"@.contains('\t'));
    }
    split_undoes_join(names, '\t');
    assert(names[0] == "id"@);
    assert(names[1] == "label"@);
    assert(names[2] == "type"@);
    assert(names[3] == "calls"@);
    assert(names[4] == "ops"@);
    assert(names[5] == "imported_at"@);
    assert(names[6] == "source"@);
}

/// An operation is listed with what it is under each name of the header, sums in
/// milliseconds.
pub proof fn operations_are_listed_under_their_names(row: SummaryRow)
    ensures
        lists(TOP_HEADER@, top_cells(row), "first"@, FigureView::Text(int_text(row.first_call_order as int))),
        lists(TOP_HEADER@, top_cells(row), "calls"@, FigureView::Text(int_text(row.call_count as int))),
        lists(TOP_HEADER@, top_cells(row), "device_ms"@, FigureView::Thousandth(row.total_device_time_us)),
        lists(TOP_HEADER@, top_cells(row), "free_ms"@, FigureView::Thousandth(row.total_free_time_us)),
        lists(TOP_HEADER@, top_cells(row), "total_ms"@, FigureView::Thousandth(row.total_time_us)),
        lists(TOP_HEADER@, top_cells(row), "avg_device_us"@, FigureView::Number(row.avg_device_time_us)),
        lists(TOP_HEADER@, top_cells(row), "occ_pct"@, match row.avg_occupancy_pct {
                Some(x) => FigureView::Number(x),
                None => FigureView::Text(Seq::empty()),
            }),
        lists(TOP_HEADER@, top_cells(row), "op"@, FigureView::Text(row.op_name@)),
{
    reveal_strlit("first\tcalls\tdevice_ms\tfree_ms\ttotal_ms\tavg_device_us\tocc_pct\top");
    reveal_strlit("avg_device_us");
    reveal_strlit("calls");
    reveal_strlit("device_ms");
    reveal_strlit("first");
    reveal_strlit("free_ms");
    reveal_strlit("occ_pct");
    reveal_strlit("op");
    reveal_strlit("total_ms");
    assert("avg_device_us"@.len() == 13);
    assert("calls"@.len() == 5);
    assert("device_ms"@.len() == 9);
    assert("first"@.len() == 5);
    assert("free_ms"@.len() == 7);
    assert("occ_pct"@.len() == 7);
    assert("op"@.len() == 2);
    assert("total_ms"@.len() == 8);
    assert("calls"@[0] == 'c');
    assert("first"@[0] == 'f');
    assert("free_ms"@[0] == 'f');
    assert("occ_pct"@[0] == 'o');
    let names = seq!["first"@, "calls"@, "device_ms"@, "free_ms"@, "total_ms"@, "avg_device_us"@, "occ_pct"@, "op"@];
    let tab = seq!['\t'];
    let first_7 = names.drop_last();
    let first_6 = first_7.drop_last();
    let first_5 = first_6.drop_last();
    let first_4 = first_5.drop_last();
    let first_3 = first_4.drop_last();
    let first_2 = first_3.drop_last();
    let first_1 = first_2.drop_last();
    assert(join_texts(first_1, tab) == "first"@);
    assert(first_2.last() == "calls"@);
    assert(join_texts(first_2, tab) == join_texts(first_1, tab) + tab + "calls"@);
    assert(first_3.last() == "device_ms"@);
    assert(join_texts(first_3, tab) == join_texts(first_2, tab) + tab + "device_ms"@);
    assert(first_4.last() == "free_ms"@);
    assert(join_texts(first_4, tab) == join_texts(first_3, tab) + tab + "free_ms"@);
    assert(first_5.last() == "total_ms"@);
    assert(join_texts(first_5, tab) == join_texts(first_4, tab) + tab + "total_ms"@);
    assert(first_6.last() == "avg_device_us"@);
    assert(join_texts(first_6, tab) == join_texts(first_5, tab) + tab + "avg_device_us"@);
    assert(first_7.last() == "occ_pct"@);
    assert(join_texts(first_7, tab) == join_texts(first_6, tab) + tab + "occ_pct"@);
    assert(names.last() == "op"@);
    assert(join_texts(names, tab) == join_texts(first_7, tab) + tab + "op"@);
    assert(TOP_HEADER@ =~= join_texts(names, tab));
    assert forall|i: int| 0 <= i < names.len() implies !(#[trigger] names[i]).contains('\t') by {
        assert(!"first"@.contains('\t'));
        assert(!"calls"@.contains('\t'));
        assert(!"device_ms"@.contains('\t'));
        assert(!"free_ms"@.contains('\t'));
        assert(!"total_ms"@.contains('\t'));
        assert(!"avg_device_us"@.contains('\t'));
        assert(!"occ_pct"@.contains('\t'));
        assert(!"op"@.contains('\t'));
    }
    split_undoes_join(names, '\t');
    assert(names[0] == "first"@);
    assert(names[1] == "calls"@);
    assert(names[2] == "device_ms"@);
    assert(names[3] == "free_ms"@);
    assert(names[4] == "total_ms"@);
    assert(names[5] == "avg_device_us"@);
    assert(names[6] == "occ_pct"@);
    assert(names[7] == "op"@);
}

/// A call is listed with what it is under each name of the header.
pub proof fn calls_are_listed_under_their_names(row: CallRow)
    ensures
        lists(CALLS_HEADER@, call_cells(row), "order"@, FigureView::Text(int_text(row.call_order as int))),
        lists(CALLS_HEADER@, call_cells(row), "idx"@, FigureView::Text(int_text(row.op_call_index as int))),
        lists(CALLS_HEADER@, call_cells(row), "device"@, match row.device {
                Some(text) => FigureView::Text(text@),
                None => FigureView::Text(Seq::empty()),
            }),
        lists(CALLS_HEADER@, call_cells(row), "stream"@, match row.stream {
                Some(text) => FigureView::Text(text@),
                None => FigureView::Text(Seq::empty()),
            }),
        lists(CALLS_HEADER@, call_cells(row), "device_us"@, FigureView::Number(row.device_time_us)),
        lists(CALLS_HEADER@, call_cells(row), "free_us"@, FigureView::Number(row.free_time_us)),
        lists(CALLS_HEADER@, call_cells(row), "total_us"@, FigureView::Number(row.total_time_us)),
        lists(CALLS_HEADER@, call_cells(row), "occ_pct"@, match row.occupancy_pct {
                Some(x) => FigureView::Number(x),
                None => FigureView::Text(Seq::empty()),
            }),
        lists(CALLS_HEADER@, call_cells(row), "op"@, FigureView::Text(row.op_name@)),
{
    reveal_strlit("order\tidx\tdevice\tstream\tdevice_us\tfree_us\ttotal_us\tocc_pct\top");
    reveal_strlit("device");
    reveal_strlit("device_us");
    reveal_strlit("free_us");
    reveal_strlit("idx");
    reveal_strlit("occ_pct");
    reveal_strlit("op");
    reveal_strlit("order");
    reveal_strlit("stream");
    reveal_strlit("total_us");
    assert("device"@.len() == 6);
    assert("device_us"@.len() == 9);
    assert("free_us"@.len() == 7);
    assert("idx"@.len() == 3);
    assert("occ_pct"@.len() == 7);
    assert("op"@.len() == 2);
    assert("order"@.len() == 5);
    assert("stream"@.len() == 6);
    assert("total_us"@.len() == 8);
    assert("device"@[0] == 'd');
    assert("stream"@[0] == 's');
    assert("free_us"@[0] == 'f');
    assert("occ_pct"@[0] == 'o');
    let names = seq!["order"@, "idx"@, "device"@, "stream"@, "device_us"@, "free_us"@, "total_us"@, "occ_pct"@, "op"@];
    let tab = seq!['\t'];
    let first_8 = names.drop_last();
    let first_7 = first_8.drop_last();
    let first_6 = first_7.drop_last();
    let first_5 = first_6.drop_last();
    let first_4 = first_5.drop_last();
    let first_3 = first_4.drop_last();
    let first_2 = first_3.drop_last();
    let first_1 = first_2.drop_last();
    assert(join_texts(first_1, tab) == "order"@);
    assert(first_2.last() == "idx"@);
    assert(join_texts(first_2, tab) == join_texts(first_1, tab) + tab + "idx"@);
    assert(first_3.last() == "device"@);
    assert(join_texts(first_3, tab) == join_texts(first_2, tab) + tab + "device"@);
    assert(first_4.last() == "stream"@);
    assert(join_texts(first_4, tab) == join_texts(first_3, tab) + tab + "stream"@);
    assert(first_5.last() == "device_us"@);
    assert(join_texts(first_5, tab) == join_texts(first_4, tab) + tab + "device_us"@);
    assert(first_6.last() == "free_us"@);
    assert(join_texts(first_6, tab) == join_texts(first_5, tab) + tab + "free_us"@);
    assert(first_7.last() == "total_us"@);
    assert(join_texts(first_7, tab) == join_texts(first_6, tab) + tab + "total_us"@);
    assert(first_8.last() == "occ_pct"@);
    assert(join_texts(first_8, tab) == join_texts(first_7, tab) + tab + "occ_pct"@);
    assert(names.last() == "op"@);
    assert(join_texts(names, tab) == join_texts(first_8, tab) + tab + "op"@);
    assert(CALLS_HEADER@ =~= join_texts(names, tab));
    assert forall|i: int| 0 <= i < names.len() implies !(#[trigger] names[i]).contains('\t') by {
        assert(!"order"@.contains('\t'));
        assert(!"idx"@.contains('\t'));
        assert(!"device"@.contains('\t'));
        assert(!"stream"@.contains('\t'));
        assert(!"device_us"@.contains('\t'));
        assert(!"free_us"@.contains('\t'));
        assert(!"total_us"@.contains('\t'));
        assert(!"occ_pct"@.contains('\t'));
        assert(!"op"@.contains('\t'));
    }
    split_undoes_join(names, '\t');
    assert(names[0] == "order"@);
    assert(names[1] == "idx"@);
    assert(names[2] == "device"@);
    assert(names[3] == "stream"@);
    assert(names[4] == "device_us"@);
    assert(names[5] == "free_us"@);
    assert(names[6] == "total_us"@);
    assert(names[7] == "occ_pct"@);
    assert(names[8] == "op"@);
}

} // verus!
