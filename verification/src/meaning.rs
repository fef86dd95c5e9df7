//! What the statements mean: which rows they read, and in which order.
use vstd::prelude::*;

use crate::db::{
    all_sorts, call_column_names, sort_after_key, sort_of_key, sorts_form_a_cycle,
    summary_column_names, CallRow, SummaryRow, LATEST_RUN, RUNS,
};
use crate::query::{
    at_least, call_context_statement, call_params, call_stats_statement, calls_statement,
    context_first, context_fits, context_last, delete_statement, like_pattern, summary_statement,
    totals_statement, SqlParam, StatementView, TOTALS,
};
use crate::text::{join_texts, non_empty, opt_view};
use crate::tui::{App, AskView, Load};

verus! {

/// What a call has in a column.
pub open spec fn call_cell(row: CallRow, column: Seq<char>) -> SqlParam {
    if column == "run_id"@ {
        SqlParam::Integer(row.run_id)
    } else if column == "call_order"@ {
        SqlParam::Integer(row.call_order)
    } else if column == "op_call_index"@ {
        SqlParam::Integer(row.op_call_index)
    } else if column == "category"@ {
        SqlParam::Text(row.category@)
    } else if column == "op_name"@ {
        SqlParam::Text(row.op_name@)
    } else if column == "device_time_us"@ {
        SqlParam::Number(row.device_time_us)
    } else if column == "occupancy_pct"@ {
        match row.occupancy_pct {
            Some(x) => SqlParam::Number(x),
            None => SqlParam::Null,
        }
    } else if column == "blocks_per_sm"@ {
        match row.blocks_per_sm {
            Some(x) => SqlParam::Number(x),
            None => SqlParam::Null,
        }
    } else if column == "warps_per_sm"@ {
        match row.warps_per_sm {
            Some(x) => SqlParam::Number(x),
            None => SqlParam::Null,
        }
    } else if column == "shared_memory"@ {
        match row.shared_memory {
            Some(x) => SqlParam::Number(x),
            None => SqlParam::Null,
        }
    } else if column == "grid"@ {
        match row.grid {
            Some(text) => SqlParam::Text(text@),
            None => SqlParam::Null,
        }
    } else if column == "block"@ {
        match row.block {
            Some(text) => SqlParam::Text(text@),
            None => SqlParam::Null,
        }
    } else if column == "free_time_us"@ {
        SqlParam::Number(row.free_time_us)
    } else if column == "total_time_us"@ {
        SqlParam::Number(row.total_time_us)
    } else if column == "start_ts_us"@ {
        match row.start_ts_us {
            Some(x) => SqlParam::Number(x),
            None => SqlParam::Null,
        }
    } else if column == "end_ts_us"@ {
        match row.end_ts_us {
            Some(x) => SqlParam::Number(x),
            None => SqlParam::Null,
        }
    } else if column == "device"@ {
        match row.device {
            Some(text) => SqlParam::Text(text@),
            None => SqlParam::Null,
        }
    } else if column == "stream"@ {
        match row.stream {
            Some(text) => SqlParam::Text(text@),
            None => SqlParam::Null,
        }
    } else if column == "pid"@ {
        match row.pid {
            Some(text) => SqlParam::Text(text@),
            None => SqlParam::Null,
        }
    } else if column == "tid"@ {
        match row.tid {
            Some(text) => SqlParam::Text(text@),
            None => SqlParam::Null,
        }
    } else if column == "correlation"@ {
        match row.correlation {
            Some(text) => SqlParam::Text(text@),
            None => SqlParam::Null,
        }
    } else if column == "external_id"@ {
        match row.external_id {
            Some(text) => SqlParam::Text(text@),
            None => SqlParam::Null,
        }
    } else {
        SqlParam::Null
    }
}

/// What the row of an operation has in a column.
pub open spec fn op_cell(row: SummaryRow, column: Seq<char>) -> SqlParam {
    if column == "run_id"@ {
        SqlParam::Integer(row.run_id)
    } else if column == "first_call_order"@ {
        SqlParam::Integer(row.first_call_order)
    } else if column == "category"@ {
        SqlParam::Text(row.category@)
    } else if column == "op_name"@ {
        SqlParam::Text(row.op_name@)
    } else if column == "call_count"@ {
        SqlParam::Integer(row.call_count)
    } else if column == "total_device_time_us"@ {
        SqlParam::Number(row.total_device_time_us)
    } else if column == "total_free_time_us"@ {
        SqlParam::Number(row.total_free_time_us)
    } else if column == "total_time_us"@ {
        SqlParam::Number(row.total_time_us)
    } else if column == "avg_device_time_us"@ {
        SqlParam::Number(row.avg_device_time_us)
    } else if column == "avg_free_time_us"@ {
        SqlParam::Number(row.avg_free_time_us)
    } else if column == "avg_time_us"@ {
        SqlParam::Number(row.avg_time_us)
    } else if column == "avg_occupancy_pct"@ {
        match row.avg_occupancy_pct {
            Some(x) => SqlParam::Number(x),
            None => SqlParam::Null,
        }
    } else if column == "min_occupancy_pct"@ {
        match row.min_occupancy_pct {
            Some(x) => SqlParam::Number(x),
            None => SqlParam::Null,
        }
    } else if column == "max_occupancy_pct"@ {
        match row.max_occupancy_pct {
            Some(x) => SqlParam::Number(x),
            None => SqlParam::Null,
        }
    } else if column == "min_device_time_us"@ {
        SqlParam::Number(row.min_device_time_us)
    } else if column == "min_free_time_us"@ {
        SqlParam::Number(row.min_free_time_us)
    } else if column == "min_time_us"@ {
        SqlParam::Number(row.min_time_us)
    } else if column == "max_device_time_us"@ {
        SqlParam::Number(row.max_device_time_us)
    } else if column == "max_free_time_us"@ {
        SqlParam::Number(row.max_free_time_us)
    } else if column == "max_time_us"@ {
        SqlParam::Number(row.max_time_us)
    } else {
        SqlParam::Null
    }
}

pub(crate) proof fn lemma_call_cells(row: CallRow)
    ensures
        call_cell(row, "run_id"@) == SqlParam::Integer(row.run_id),
        call_cell(row, "call_order"@) == SqlParam::Integer(row.call_order),
        call_cell(row, "op_call_index"@) == SqlParam::Integer(row.op_call_index),
        call_cell(row, "category"@) == SqlParam::Text(row.category@),
        call_cell(row, "op_name"@) == SqlParam::Text(row.op_name@),
        call_cell(row, "device_time_us"@) == SqlParam::Number(row.device_time_us),
        call_cell(row, "occupancy_pct"@) == (match row.occupancy_pct {
            Some(x) => SqlParam::Number(x),
            None => SqlParam::Null,
        }),
        call_cell(row, "blocks_per_sm"@) == (match row.blocks_per_sm {
            Some(x) => SqlParam::Number(x),
            None => SqlParam::Null,
        }),
        call_cell(row, "warps_per_sm"@) == (match row.warps_per_sm {
            Some(x) => SqlParam::Number(x),
            None => SqlParam::Null,
        }),
        call_cell(row, "shared_memory"@) == (match row.shared_memory {
            Some(x) => SqlParam::Number(x),
            None => SqlParam::Null,
        }),
        call_cell(row, "grid"@) == (match row.grid {
            Some(text) => SqlParam::Text(text@),
            None => SqlParam::Null,
        }),
        call_cell(row, "block"@) == (match row.block {
            Some(text) => SqlParam::Text(text@),
            None => SqlParam::Null,
        }),
        call_cell(row, "free_time_us"@) == SqlParam::Number(row.free_time_us),
        call_cell(row, "total_time_us"@) == SqlParam::Number(row.total_time_us),
        call_cell(row, "start_ts_us"@) == (match row.start_ts_us {
            Some(x) => SqlParam::Number(x),
            None => SqlParam::Null,
        }),
        call_cell(row, "end_ts_us"@) == (match row.end_ts_us {
            Some(x) => SqlParam::Number(x),
            None => SqlParam::Null,
        }),
        call_cell(row, "device"@) == (match row.device {
            Some(text) => SqlParam::Text(text@),
            None => SqlParam::Null,
        }),
        call_cell(row, "stream"@) == (match row.stream {
            Some(text) => SqlParam::Text(text@),
            None => SqlParam::Null,
        }),
        call_cell(row, "pid"@) == (match row.pid {
            Some(text) => SqlParam::Text(text@),
            None => SqlParam::Null,
        }),
        call_cell(row, "tid"@) == (match row.tid {
            Some(text) => SqlParam::Text(text@),
            None => SqlParam::Null,
        }),
        call_cell(row, "correlation"@) == (match row.correlation {
            Some(text) => SqlParam::Text(text@),
            None => SqlParam::Null,
        }),
        call_cell(row, "external_id"@) == (match row.external_id {
            Some(text) => SqlParam::Text(text@),
            None => SqlParam::Null,
        }),
{
    reveal_strlit("block");
    reveal_strlit("blocks_per_sm");
    reveal_strlit("call_order");
    reveal_strlit("category");
    reveal_strlit("correlation");
    reveal_strlit("device");
    reveal_strlit("device_time_us");
    reveal_strlit("end_ts_us");
    reveal_strlit("external_id");
    reveal_strlit("free_time_us");
    reveal_strlit("grid");
    reveal_strlit("occupancy_pct");
    reveal_strlit("op_call_index");
    reveal_strlit("op_name");
    reveal_strlit("pid");
    reveal_strlit("run_id");
    reveal_strlit("shared_memory");
    reveal_strlit("start_ts_us");
    reveal_strlit("stream");
    reveal_strlit("tid");
    reveal_strlit("total_time_us");
    reveal_strlit("warps_per_sm");
    assert("block"@.len() == 5);
    assert("blocks_per_sm"@.len() == 13);
    assert("call_order"@.len() == 10);
    assert("category"@.len() == 8);
    assert("correlation"@.len() == 11);
    assert("device"@.len() == 6);
    assert("device_time_us"@.len() == 14);
    assert("end_ts_us"@.len() == 9);
    assert("external_id"@.len() == 11);
    assert("free_time_us"@.len() == 12);
    assert("grid"@.len() == 4);
    assert("occupancy_pct"@.len() == 13);
    assert("op_call_index"@.len() == 13);
    assert("op_name"@.len() == 7);
    assert("pid"@.len() == 3);
    assert("run_id"@.len() == 6);
    assert("shared_memory"@.len() == 13);
    assert("start_ts_us"@.len() == 11);
    assert("stream"@.len() == 6);
    assert("tid"@.len() == 3);
    assert("total_time_us"@.len() == 13);
    assert("warps_per_sm"@.len() == 12);
    assert("blocks_per_sm"@[0] == 'b');
    assert("occupancy_pct"@[0] == 'o');
    assert("op_call_index"@[0] == 'o');
    assert("shared_memory"@[0] == 's');
    assert("total_time_us"@[0] == 't');
    assert("correlation"@[0] == 'c');
    assert("external_id"@[0] == 'e');
    assert("start_ts_us"@[0] == 's');
    assert("device"@[0] == 'd');
    assert("run_id"@[0] == 'r');
    assert("stream"@[0] == 's');
    assert("free_time_us"@[0] == 'f');
    assert("warps_per_sm"@[0] == 'w');
    assert("occupancy_pct"@[1] == 'c');
    assert("op_call_index"@[1] == 'p');
    assert("pid"@[0] == 'p');
    assert("tid"@[0] == 't');
}

pub(crate) proof fn lemma_op_cells(row: SummaryRow)
    ensures
        op_cell(row, "run_id"@) == SqlParam::Integer(row.run_id),
        op_cell(row, "first_call_order"@) == SqlParam::Integer(row.first_call_order),
        op_cell(row, "category"@) == SqlParam::Text(row.category@),
        op_cell(row, "op_name"@) == SqlParam::Text(row.op_name@),
        op_cell(row, "call_count"@) == SqlParam::Integer(row.call_count),
        op_cell(row, "total_device_time_us"@) == SqlParam::Number(row.total_device_time_us),
        op_cell(row, "total_free_time_us"@) == SqlParam::Number(row.total_free_time_us),
        op_cell(row, "total_time_us"@) == SqlParam::Number(row.total_time_us),
        op_cell(row, "avg_device_time_us"@) == SqlParam::Number(row.avg_device_time_us),
        op_cell(row, "avg_free_time_us"@) == SqlParam::Number(row.avg_free_time_us),
        op_cell(row, "avg_time_us"@) == SqlParam::Number(row.avg_time_us),
        op_cell(row, "avg_occupancy_pct"@) == (match row.avg_occupancy_pct {
            Some(x) => SqlParam::Number(x),
            None => SqlParam::Null,
        }),
        op_cell(row, "min_occupancy_pct"@) == (match row.min_occupancy_pct {
            Some(x) => SqlParam::Number(x),
            None => SqlParam::Null,
        }),
        op_cell(row, "max_occupancy_pct"@) == (match row.max_occupancy_pct {
            Some(x) => SqlParam::Number(x),
            None => SqlParam::Null,
        }),
        op_cell(row, "min_device_time_us"@) == SqlParam::Number(row.min_device_time_us),
        op_cell(row, "min_free_time_us"@) == SqlParam::Number(row.min_free_time_us),
        op_cell(row, "min_time_us"@) == SqlParam::Number(row.min_time_us),
        op_cell(row, "max_device_time_us"@) == SqlParam::Number(row.max_device_time_us),
        op_cell(row, "max_free_time_us"@) == SqlParam::Number(row.max_free_time_us),
        op_cell(row, "max_time_us"@) == SqlParam::Number(row.max_time_us),
{
    reveal_strlit("avg_device_time_us");
    reveal_strlit("avg_free_time_us");
    reveal_strlit("avg_occupancy_pct");
    reveal_strlit("avg_time_us");
    reveal_strlit("call_count");
    reveal_strlit("category");
    reveal_strlit("first_call_order");
    reveal_strlit("max_device_time_us");
    reveal_strlit("max_free_time_us");
    reveal_strlit("max_occupancy_pct");
    reveal_strlit("max_time_us");
    reveal_strlit("min_device_time_us");
    reveal_strlit("min_free_time_us");
    reveal_strlit("min_occupancy_pct");
    reveal_strlit("min_time_us");
    reveal_strlit("op_name");
    reveal_strlit("run_id");
    reveal_strlit("total_device_time_us");
    reveal_strlit("total_free_time_us");
    reveal_strlit("total_time_us");
    assert("avg_device_time_us"@.len() == 18);
    assert("avg_free_time_us"@.len() == 16);
    assert("avg_occupancy_pct"@.len() == 17);
    assert("avg_time_us"@.len() == 11);
    assert("call_count"@.len() == 10);
    assert("category"@.len() == 8);
    assert("first_call_order"@.len() == 16);
    assert("max_device_time_us"@.len() == 18);
    assert("max_free_time_us"@.len() == 16);
    assert("max_occupancy_pct"@.len() == 17);
    assert("max_time_us"@.len() == 11);
    assert("min_device_time_us"@.len() == 18);
    assert("min_free_time_us"@.len() == 16);
    assert("min_occupancy_pct"@.len() == 17);
    assert("min_time_us"@.len() == 11);
    assert("op_name"@.len() == 7);
    assert("run_id"@.len() == 6);
    assert("total_device_time_us"@.len() == 20);
    assert("total_free_time_us"@.len() == 18);
    assert("total_time_us"@.len() == 13);
    assert("avg_device_time_us"@[0] == 'a');
    assert("max_device_time_us"@[0] == 'm');
    assert("min_device_time_us"@[0] == 'm');
    assert("total_free_time_us"@[0] == 't');
    assert("avg_free_time_us"@[0] == 'a');
    assert("first_call_order"@[0] == 'f');
    assert("max_free_time_us"@[0] == 'm');
    assert("min_free_time_us"@[0] == 'm');
    assert("avg_occupancy_pct"@[0] == 'a');
    assert("max_occupancy_pct"@[0] == 'm');
    assert("min_occupancy_pct"@[0] == 'm');
    assert("avg_time_us"@[0] == 'a');
    assert("max_time_us"@[0] == 'm');
    assert("min_time_us"@[0] == 'm');
    assert("max_device_time_us"@[1] == 'a');
    assert("min_device_time_us"@[1] == 'i');
    assert("max_free_time_us"@[1] == 'a');
    assert("min_free_time_us"@[1] == 'i');
    assert("max_occupancy_pct"@[1] == 'a');
    assert("min_occupancy_pct"@[1] == 'i');
    assert("max_time_us"@[1] == 'a');
    assert("min_time_us"@[1] == 'i');
}

/// A condition on a column of a row, with the values that it is compared with.
pub enum Test {
    Equal { column: Seq<char>, value: SqlParam },
    Like { column: Seq<char>, pattern: Seq<char> },
    Between { column: Seq<char>, first: i64, last: i64 },
}

/// What reads columns of the rows of a table that pass tests, in the order of one
/// column, from some place on, and no more than some.
pub struct Query {
    pub columns: Seq<Seq<char>>,
    pub table: Seq<char>,
    pub tests: Seq<Test>,
    pub order: Seq<char>,
    pub ascending: bool,
    pub limit: Option<i64>,
    pub offset: Option<i64>,
}

/// How a condition is written.
pub open spec fn test_sql(test: Test) -> Seq<char> {
    match test {
        Test::Equal { column, .. } => column + " = ?"@,
        Test::Like { column, .. } => column + " LIKE ?"@,
        Test::Between { column, .. } => column + " BETWEEN ? AND ?"@,
    }
}

/// The values that a condition binds.
pub open spec fn test_values(test: Test) -> Seq<SqlParam> {
    match test {
        Test::Equal { value, .. } => seq![value],
        Test::Like { pattern, .. } => seq![SqlParam::Text(pattern)],
        Test::Between { first, last, .. } => seq![SqlParam::Integer(first), SqlParam::Integer(last)],
    }
}

/// How conditions are written that are all to hold.
pub open spec fn tests_sql(tests: Seq<Test>) -> Seq<char>
    decreases tests.len(),
{
    if tests.len() == 0 {
        Seq::empty()
    } else if tests.len() == 1 {
        " WHERE "@ + test_sql(tests[0])
    } else {
        tests_sql(tests.drop_last()) + " AND "@ + test_sql(tests.last())
    }
}

/// The values that conditions bind, one condition after another.
pub open spec fn tests_values(tests: Seq<Test>) -> Seq<SqlParam>
    decreases tests.len(),
{
    if tests.len() == 0 {
        Seq::empty()
    } else {
        tests_values(tests.drop_last()) + test_values(tests.last())
    }
}

/// A text, where there is a number to be bound.
pub open spec fn if_bound(n: Option<i64>, text: Seq<char>) -> Seq<char> {
    match n {
        Some(_) => text,
        None => Seq::empty(),
    }
}

/// The value of a number, where there is one to be bound.
pub open spec fn bound(n: Option<i64>) -> Seq<SqlParam> {
    match n {
        Some(n) => seq![SqlParam::Integer(n)],
        None => Seq::empty(),
    }
}

/// How a query is written.
pub open spec fn written(query: Query) -> StatementView {
    StatementView {
        sql: "SELECT "@ + join_texts(query.columns, ", "@) + " FROM "@ + query.table + tests_sql(
            query.tests,
        ) + " ORDER BY "@ + query.order + (if query.ascending {
            " ASC"@
        } else {
            " DESC"@
        }) + if_bound(query.limit, " LIMIT ?"@) + if_bound(query.offset, " OFFSET ?"@),
        params: tests_values(query.tests) + bound(query.limit) + bound(query.offset),
    }
}

/// A letter of ASCII in lower case, or any other character.
pub open spec fn lower(c: char) -> char {
    if 'A' <= c && c <= 'Z' {
        ((c as u32) + 32) as char
    } else {
        c
    }
}

/// Whether a text is like a pattern: a percent sign stands for any text, an
/// underscore for any character, and any other character for itself in either case.
pub open spec fn like(pattern: Seq<char>, text: Seq<char>) -> bool
    decreases pattern.len() + text.len(),
{
    if pattern.len() == 0 {
        text.len() == 0
    } else if pattern[0] == '%' {
        like(pattern.drop_first(), text) || (text.len() > 0 && like(pattern, text.drop_first()))
    } else {
        &&& text.len() > 0
        &&& pattern[0] == '_' || lower(pattern[0]) == lower(text[0])
        &&& like(pattern.drop_first(), text.drop_first())
    }
}

/// Whether a text begins with another at some place, whatever the case of letters.
pub open spec fn goes_on_with(text: Seq<char>, at: int, part: Seq<char>) -> bool {
    &&& 0 <= at
    &&& at + part.len() <= text.len()
    &&& forall|i: int| 0 <= i < part.len() ==> lower(text[at + i]) == lower(#[trigger] part[i])
}

/// Whether a text holds another, whatever the case of letters.
pub open spec fn holds_text(text: Seq<char>, part: Seq<char>) -> bool {
    exists|at: int| #[trigger] goes_on_with(text, at, part)
}

/// Whether a text has no character that stands for others in a pattern.
pub open spec fn stands_for_itself(text: Seq<char>) -> bool {
    !text.contains('%') && !text.contains('_')
}

/// Whether a row passes a test, given what it has in each column.
pub open spec fn passes(test: Test, cells: spec_fn(Seq<char>) -> SqlParam) -> bool {
    match test {
        Test::Equal { column, value } => value !is Null && cells(column) == value,
        Test::Like { column, pattern } => match cells(column) {
            SqlParam::Text(text) => like(pattern, text),
            _ => false,
        },
        Test::Between { column, first, last } => match cells(column) {
            SqlParam::Integer(n) => first <= n <= last,
            _ => false,
        },
    }
}

/// Whether a query reads a row, before it counts them.
pub open spec fn selects(query: Query, cells: spec_fn(Seq<char>) -> SqlParam) -> bool {
    forall|i: int| 0 <= i < query.tests.len() ==> passes(#[trigger] query.tests[i], cells)
}

/// What a call has in each column.
pub open spec fn call_cells(row: CallRow) -> spec_fn(Seq<char>) -> SqlParam {
    |column: Seq<char>| call_cell(row, column)
}

/// What the row of an operation has in each column.
pub open spec fn op_cells(row: SummaryRow) -> spec_fn(Seq<char>) -> SqlParam {
    |column: Seq<char>| op_cell(row, column)
}

/// Whether the name of an operation is one that is looked for. No text looks for
/// all names.
pub open spec fn is_looked_for(name: Seq<char>, q: Option<Seq<char>>) -> bool {
    match q {
        Some(text) => text.len() > 0 ==> like(seq!['%'] + text + seq!['%'], name),
        None => true,
    }
}

proof fn lemma_like_rest(text: Seq<char>)
    ensures
        like(seq!['%'], text),
    decreases text.len(),
{
    reveal_with_fuel(like, 2);
    assert(seq!['%'].drop_first().len() == 0);
    if text.len() > 0 {
        lemma_like_rest(text.drop_first());
    }
}

/// A percent sign stands for any text.
proof fn lemma_like_any(rest: Seq<char>, text: Seq<char>)
    ensures
        like(seq!['%'] + rest, text) <==> exists|k: int|
            0 <= k <= text.len() && #[trigger] like(rest, text.skip(k)),
    decreases text.len(),
{
    let pattern = seq!['%'] + rest;
    assert(pattern.drop_first() =~= rest);
    assert(text.skip(0) =~= text);
    assert(like(rest, text.skip(0)) == like(rest, text));
    if text.len() > 0 {
        let after = text.drop_first();
        lemma_like_any(rest, after);
        if like(pattern, after) {
            let k = choose|k: int| 0 <= k <= after.len() && #[trigger] like(rest, after.skip(k));
            assert(after.skip(k) =~= text.skip(k + 1));
        }
        if exists|k: int| 0 <= k <= text.len() && #[trigger] like(rest, text.skip(k)) {
            let k = choose|k: int| 0 <= k <= text.len() && #[trigger] like(rest, text.skip(k));
            if k > 0 {
                assert(after.skip(k - 1) =~= text.skip(k));
            }
        }
    }
}

proof fn lemma_like_start(part: Seq<char>, text: Seq<char>)
    requires
        stands_for_itself(part),
    ensures
        like(part + seq!['%'], text) <==> goes_on_with(text, 0, part),
    decreases part.len(),
{
    let pattern = part + seq!['%'];
    if part.len() == 0 {
        assert(pattern =~= seq!['%']);
        lemma_like_rest(text);
    } else {
        let rest = part.drop_first();
        assert(part.contains(part[0]));
        assert(pattern[0] == part[0]);
        assert(pattern.drop_first() =~= rest + seq!['%']);
        assert(stands_for_itself(rest)) by {
            assert forall|c: char| rest.contains(c) implies part.contains(c) by {
                let k = choose|k: int| 0 <= k < rest.len() && rest[k] == c;
                assert(part[k + 1] == c);
            }
        }
        if text.len() > 0 {
            let after = text.drop_first();
            lemma_like_start(rest, after);
            if goes_on_with(text, 0, part) {
                assert(lower(text[0]) == lower(part[0]));
                assert forall|i: int| 0 <= i < rest.len() implies lower(after[0 + i]) == lower(
                    #[trigger] rest[i],
                ) by {
                    assert(lower(text[0 + (i + 1)]) == lower(part[i + 1]));
                }
            }
            if lower(part[0]) == lower(text[0]) && goes_on_with(after, 0, rest) {
                assert forall|i: int| 0 <= i < part.len() implies lower(text[0 + i]) == lower(
                    #[trigger] part[i],
                ) by {
                    if i > 0 {
                        assert(lower(after[0 + (i - 1)]) == lower(rest[i - 1]));
                    }
                }
            }
        }
    }
}

/// A name is looked for by a text, of which each character stands for itself, if and
/// only if it holds the text, whatever the case of letters.
pub proof fn names_are_looked_for_by_their_parts(name: Seq<char>, q: Seq<char>)
    requires
        stands_for_itself(q),
    ensures
        is_looked_for(name, Some(q)) <==> holds_text(name, q),
{
    let pattern = seq!['%'] + q + seq!['%'];
    let rest = q + seq!['%'];
    assert(pattern =~= seq!['%'] + rest);
    lemma_like_any(rest, name);
    if q.len() == 0 {
        assert(goes_on_with(name, 0, q));
    } else {
        if like(pattern, name) {
            let k = choose|k: int| 0 <= k <= name.len() && #[trigger] like(rest, name.skip(k));
            lemma_like_start(q, name.skip(k));
            assert forall|i: int| 0 <= i < q.len() implies lower(name[k + i]) == lower(
                #[trigger] q[i],
            ) by {
                assert(lower(name.skip(k)[0 + i]) == lower(q[i]));
            }
            assert(goes_on_with(name, k, q));
        }
        if holds_text(name, q) {
            let k = choose|k: int| #[trigger] goes_on_with(name, k, q);
            assert forall|i: int| 0 <= i < q.len() implies lower(name.skip(k)[0 + i]) == lower(
                #[trigger] q[i],
            ) by {
                assert(lower(name[k + i]) == lower(q[i]));
            }
            lemma_like_start(q, name.skip(k));
            assert(like(rest, name.skip(k)));
        }
    }
}

proof fn lemma_next_test(tests: Seq<Test>, test: Test)
    requires
        tests.len() > 0,
    ensures
        tests_sql(tests.push(test)) == tests_sql(tests) + " AND "@ + test_sql(test),
        tests_values(tests.push(test)) == tests_values(tests) + test_values(test),
{
    assert(tests.push(test).drop_last() =~= tests);
}

proof fn lemma_passes_next(query: Query, next: Query, test: Test, cells: spec_fn(Seq<char>) -> SqlParam)
    requires
        next.tests == query.tests.push(test),
    ensures
        selects(next, cells) <==> selects(query, cells) && passes(test, cells),
{
    if selects(next, cells) {
        assert forall|i: int| 0 <= i < query.tests.len() implies passes(
            #[trigger] query.tests[i],
            cells,
        ) by {
            assert(next.tests[i] == query.tests[i]);
        }
        assert(passes(next.tests[query.tests.len() as int], cells));
    }
}

proof fn lemma_first_test(run_id: i64)
    ensures
        ({
            let tests = seq![
                Test::Equal { column: "run_id"@, value: SqlParam::Integer(run_id) },
            ];
            &&& tests_sql(tests) == " WHERE run_id = ?"@
            &&& tests_values(tests) == seq![SqlParam::Integer(run_id)]
        }),
{
    let tests = seq![Test::Equal { column: "run_id"@, value: SqlParam::Integer(run_id) }];
    reveal_strlit(" WHERE run_id = ?");
    reveal_strlit(" WHERE ");
    reveal_strlit("run_id");
    reveal_strlit(" = ?");
    reveal_with_fuel(tests_values, 2);
    assert(tests_sql(tests) =~= " WHERE run_id = ?"@);
    assert(tests_values(tests) =~= seq![SqlParam::Integer(run_id)]);
}

/// The tests that a text, an operation and a number of a call ask for in a run.
spec fn asked_tests(
    run_id: i64,
    q: Option<Seq<char>>,
    op: Option<Seq<char>>,
    call_order: Option<i64>,
) -> Seq<Test> {
    let of_run = seq![Test::Equal { column: "run_id"@, value: SqlParam::Integer(run_id) }];
    let of_name = match non_empty(q) {
        Some(text) => of_run.push(
            Test::Like { column: "op_name"@, pattern: seq!['%'] + text + seq!['%'] },
        ),
        None => of_run,
    };
    let of_op = match non_empty(op) {
        Some(name) => of_name.push(
            Test::Equal { column: "op_name"@, value: SqlParam::Text(name) },
        ),
        None => of_name,
    };
    match call_order {
        Some(order) => of_op.push(
            Test::Equal { column: "call_order"@, value: SqlParam::Integer(order) },
        ),
        None => of_op,
    }
}

proof fn lemma_name_tests(run_id: i64, q: Option<Seq<char>>)
    ensures
        tests_sql(asked_tests(run_id, q, None, None)) == " WHERE run_id = ?"@
            + crate::query::name_condition(q),
        tests_values(asked_tests(run_id, q, None, None)) == seq![SqlParam::Integer(run_id)]
            + crate::query::name_params(q),
{
    let of_run = seq![Test::Equal { column: "run_id"@, value: SqlParam::Integer(run_id) }];
    lemma_first_test(run_id);
    reveal_strlit(" AND ");
    reveal_strlit("op_name");
    reveal_strlit(" LIKE ?");
    reveal_strlit(" AND op_name LIKE ?");
    reveal_strlit("%");
    assert(" AND "@ + ("op_name"@ + " LIKE ?"@) =~= " AND op_name LIKE ?"@);
    match non_empty(q) {
        Some(text) => {
            let pattern = seq!['%'] + text + seq!['%'];
            assert("%"@ =~= seq!['%']);
            assert(like_pattern(text) =~= pattern);
            let test = Test::Like { column: "op_name"@, pattern };
            lemma_next_test(of_run, test);
            assert(tests_sql(of_run.push(test)) =~= " WHERE run_id = ?"@ + " AND op_name LIKE ?"@);
        },
        None => {
            assert(" WHERE run_id = ?"@ =~= " WHERE run_id = ?"@ + crate::query::name_condition(q));
            assert(seq![SqlParam::Integer(run_id)] =~= seq![SqlParam::Integer(run_id)]
                + crate::query::name_params(q));
        },
    }
}

proof fn lemma_asked_tests(
    run_id: i64,
    q: Option<Seq<char>>,
    op: Option<Seq<char>>,
    call_order: Option<i64>,
)
    ensures
        tests_sql(asked_tests(run_id, q, op, call_order)) == " WHERE run_id = ?"@
            + crate::query::call_conditions(q, op, call_order),
        tests_values(asked_tests(run_id, q, op, call_order)) == seq![SqlParam::Integer(run_id)]
            + call_params(q, op, call_order),
{
    let of_name = asked_tests(run_id, q, None, None);
    let of_op = asked_tests(run_id, q, op, None);
    lemma_name_tests(run_id, q);
    reveal_strlit(" AND ");
    reveal_strlit("op_name");
    reveal_strlit("call_order");
    reveal_strlit(" = ?");
    reveal_strlit(" AND op_name = ?");
    reveal_strlit(" AND call_order = ?");
    assert(" AND "@ + ("op_name"@ + " = ?"@) =~= " AND op_name = ?"@);
    assert(" AND "@ + ("call_order"@ + " = ?"@) =~= " AND call_order = ?"@);
    let head = " WHERE run_id = ?"@;
    let value = seq![SqlParam::Integer(run_id)];
    if let Some(name) = non_empty(op) {
        let test = Test::Equal { column: "op_name"@, value: SqlParam::Text(name) };
        lemma_next_test(of_name, test);
        assert(tests_sql(of_op) =~= tests_sql(of_name) + " AND op_name = ?"@);
    }
    assert(tests_sql(of_op) =~= head + crate::query::call_conditions(q, op, None));
    assert(tests_values(of_op) =~= value + call_params(q, op, None));
    if let Some(order) = call_order {
        let test = Test::Equal { column: "call_order"@, value: SqlParam::Integer(order) };
        lemma_next_test(of_op, test);
        assert(tests_sql(of_op.push(test)) =~= tests_sql(of_op) + " AND call_order = ?"@);
        assert(tests_sql(of_op.push(test)) =~= head + crate::query::call_conditions(
            q,
            op,
            call_order,
        ));
        assert(tests_values(of_op.push(test)) =~= value + call_params(q, op, call_order));
    }
}

/// Whether a call is one that is asked for: of a run, with a name that holds a text,
/// of an operation, and with a number. A text or an operation that is empty asks for
/// nothing.
pub open spec fn is_call_asked_for(
    row: CallRow,
    run_id: i64,
    q: Option<Seq<char>>,
    op: Option<Seq<char>>,
    call_order: Option<i64>,
) -> bool {
    &&& row.run_id == run_id
    &&& is_looked_for(row.op_name@, q)
    &&& op is Some && op->0.len() > 0 ==> row.op_name@ == op->0
    &&& call_order is Some ==> row.call_order == call_order->0
}

proof fn lemma_asked_rows(
    query: Query,
    run_id: i64,
    q: Option<Seq<char>>,
    op: Option<Seq<char>>,
    call_order: Option<i64>,
    row: CallRow,
)
    requires
        query.tests == asked_tests(run_id, q, op, call_order),
    ensures
        selects(query, call_cells(row)) <==> is_call_asked_for(row, run_id, q, op, call_order),
{
    let cells = call_cells(row);
    lemma_call_cells(row);
    let of_run = Query {
        tests: seq![Test::Equal { column: "run_id"@, value: SqlParam::Integer(run_id) }],
        ..query
    };
    let of_name = Query { tests: asked_tests(run_id, q, None, None), ..query };
    let of_op = Query { tests: asked_tests(run_id, q, op, None), ..query };
    assert(passes(of_run.tests[0], cells) <==> row.run_id == run_id);
    assert(selects(of_run, cells) <==> row.run_id == run_id);
    if let Some(text) = non_empty(q) {
        lemma_passes_next(
            of_run,
            of_name,
            Test::Like { column: "op_name"@, pattern: seq!['%'] + text + seq!['%'] },
            cells,
        );
    }
    if let Some(name) = non_empty(op) {
        lemma_passes_next(
            of_name,
            of_op,
            Test::Equal { column: "op_name"@, value: SqlParam::Text(name) },
            cells,
        );
    }
    if let Some(order) = call_order {
        lemma_passes_next(
            of_op,
            query,
            Test::Equal { column: "call_order"@, value: SqlParam::Integer(order) },
            cells,
        );
    }
}

/// The statement that reads calls reads those that are asked for and no others: the
/// calls of the run whose names hold the text, that are of the operation, and that
/// have the number, each as far as it is asked for. They come in the order of their
/// numbers, from the place that is asked for on, and there is room for one at least.
pub proof fn calls_are_those_asked_for(
    run_id: i64,
    q: Option<Seq<char>>,
    op: Option<Seq<char>>,
    call_order: Option<i64>,
    limit: i64,
    offset: i64,
)
    ensures
        exists|query: Query|
            {
                &&& #[trigger] written(query) == calls_statement(
                    run_id,
                    q,
                    op,
                    call_order,
                    limit,
                    offset,
                )
                &&& query.columns == call_column_names()
                &&& query.table == "gpu_calls"@
                &&& forall|row: CallRow| #[trigger]
                    selects(query, call_cells(row)) <==> is_call_asked_for(
                        row,
                        run_id,
                        q,
                        op,
                        call_order,
                    )
                &&& query.order == "call_order"@
                &&& query.ascending
                &&& query.limit == Some(
                    if limit >= 1 {
                        limit
                    } else {
                        1
                    },
                )
                &&& query.offset == Some(
                    if offset >= 0 {
                        offset
                    } else {
                        0
                    },
                )
            },
{
    let query = Query {
        columns: call_column_names(),
        table: "gpu_calls"@,
        tests: asked_tests(run_id, q, op, call_order),
        order: "call_order"@,
        ascending: true,
        limit: Some(at_least(limit, 1)),
        offset: Some(at_least(offset, 0)),
    };
    let statement = calls_statement(run_id, q, op, call_order, limit, offset);
    lemma_asked_tests(run_id, q, op, call_order);
    reveal_strlit(" ORDER BY call_order ASC LIMIT ? OFFSET ?");
    reveal_strlit(" ORDER BY ");
    reveal_strlit("call_order");
    reveal_strlit(" ASC");
    reveal_strlit(" LIMIT ?");
    reveal_strlit(" OFFSET ?");
    assert(" ORDER BY "@ + "call_order"@ + " ASC"@ + " LIMIT ?"@ + " OFFSET ?"@
        =~= " ORDER BY call_order ASC LIMIT ? OFFSET ?"@);
    assert(written(query).sql =~= statement.sql);
    assert(written(query).params =~= statement.params);
    assert forall|row: CallRow| #[trigger]
        selects(query, call_cells(row)) <==> is_call_asked_for(row, run_id, q, op, call_order) by {
        lemma_asked_rows(query, run_id, q, op, call_order, row);
    }
    assert(written(query) == statement);
}

/// The statement that reads device times reads those of the calls that are asked for
/// and no others, from the shortest to the longest.
pub proof fn device_times_are_of_the_calls_asked_for(
    run_id: i64,
    q: Option<Seq<char>>,
    op: Option<Seq<char>>,
    call_order: Option<i64>,
)
    ensures
        exists|query: Query|
            {
                &&& #[trigger] written(query) == call_stats_statement(run_id, q, op, call_order)
                &&& query.columns == seq!["device_time_us"@]
                &&& query.table == "gpu_calls"@
                &&& forall|row: CallRow| #[trigger]
                    selects(query, call_cells(row)) <==> is_call_asked_for(
                        row,
                        run_id,
                        q,
                        op,
                        call_order,
                    )
                &&& query.order == "device_time_us"@
                &&& query.ascending
                &&& query.limit is None
                &&& query.offset is None
            },
{
    let query = Query {
        columns: seq!["device_time_us"@],
        table: "gpu_calls"@,
        tests: asked_tests(run_id, q, op, call_order),
        order: "device_time_us"@,
        ascending: true,
        limit: None,
        offset: None,
    };
    let statement = call_stats_statement(run_id, q, op, call_order);
    lemma_asked_tests(run_id, q, op, call_order);
    reveal_strlit("SELECT device_time_us FROM gpu_calls WHERE run_id = ?");
    reveal_strlit("SELECT ");
    reveal_strlit("device_time_us");
    reveal_strlit(" FROM ");
    reveal_strlit("gpu_calls");
    reveal_strlit(" WHERE run_id = ?");
    reveal_strlit(" ORDER BY device_time_us ASC");
    reveal_strlit(" ORDER BY ");
    reveal_strlit(" ASC");
    assert(join_texts(query.columns, ", "@) =~= "device_time_us"@);
    assert("SELECT "@ + "device_time_us"@ + " FROM "@ + "gpu_calls"@ + " WHERE run_id = ?"@
        =~= "SELECT device_time_us FROM gpu_calls WHERE run_id = ?"@);
    assert(" ORDER BY "@ + "device_time_us"@ + " ASC"@ =~= " ORDER BY device_time_us ASC"@);
    assert(written(query).sql =~= statement.sql);
    assert(written(query).params =~= statement.params);
    assert forall|row: CallRow| #[trigger]
        selects(query, call_cells(row)) <==> is_call_asked_for(row, run_id, q, op, call_order) by {
        lemma_asked_rows(query, run_id, q, op, call_order, row);
    }
    assert(written(query) == statement);
}

/// The statement that reads the calls around a call reads those of the run with
/// numbers no further from its own than asked, which is one where less is asked, in
/// the order of their numbers. Calls are numbered from one on.
pub proof fn context_is_what_is_near(run_id: i64, call_order: i64, radius: i64)
    requires
        context_fits(call_order, radius),
    ensures
        exists|query: Query|
            {
                &&& #[trigger] written(query) == call_context_statement(
                    run_id,
                    call_order,
                    radius,
                )
                &&& query.columns == call_column_names()
                &&& query.table == "gpu_calls"@
                &&& forall|row: CallRow|
                    {
                        let reach: int = if radius >= 1 {
                            radius as int
                        } else {
                            1
                        };
                        #[trigger] selects(query, call_cells(row)) <==> {
                            &&& row.run_id == run_id
                            &&& row.call_order >= 1
                            &&& call_order - reach <= row.call_order <= call_order + reach
                        }
                    }
                &&& query.order == "call_order"@
                &&& query.ascending
                &&& query.limit is None
                &&& query.offset is None
            },
{
    let of_run = seq![Test::Equal { column: "run_id"@, value: SqlParam::Integer(run_id) }];
    let test = Test::Between {
        column: "call_order"@,
        first: context_first(call_order, radius) as i64,
        last: context_last(call_order, radius) as i64,
    };
    let query = Query {
        columns: call_column_names(),
        table: "gpu_calls"@,
        tests: of_run.push(test),
        order: "call_order"@,
        ascending: true,
        limit: None,
        offset: None,
    };
    let statement = call_context_statement(run_id, call_order, radius);
    lemma_first_test(run_id);
    lemma_next_test(of_run, test);
    reveal_strlit(" AND call_order BETWEEN ? AND ? ORDER BY call_order ASC");
    reveal_strlit(" AND ");
    reveal_strlit("call_order");
    reveal_strlit(" BETWEEN ? AND ?");
    reveal_strlit(" ORDER BY ");
    reveal_strlit(" ASC");
    assert(" AND "@ + ("call_order"@ + " BETWEEN ? AND ?"@) + " ORDER BY "@ + "call_order"@
        + " ASC"@ =~= " AND call_order BETWEEN ? AND ? ORDER BY call_order ASC"@);
    assert(written(query).sql =~= statement.sql);
    assert(written(query).params =~= statement.params);
    assert forall|row: CallRow| #[trigger] selects(query, call_cells(row)) <==> {
        &&& row.run_id == run_id
        &&& row.call_order >= 1
        &&& call_order - at_least(radius, 1) <= row.call_order <= call_order + at_least(radius, 1)
    } by {
        let cells = call_cells(row);
        let first = Query { tests: of_run, ..query };
        lemma_call_cells(row);
        assert(passes(first.tests[0], cells) <==> row.run_id == run_id);
        lemma_passes_next(first, query, test, cells);
    }
    assert(written(query) == statement);
}

/// What the operations are put in order by, where they are to be put in the order of
/// a key.
pub open spec fn ordering_cell(row: SummaryRow, key: Seq<char>) -> SqlParam {
    if key == "free"@ {
        SqlParam::Number(row.total_free_time_us)
    } else if key == "total"@ {
        SqlParam::Number(row.total_time_us)
    } else if key == "count"@ {
        SqlParam::Integer(row.call_count)
    } else if key == "avg_device"@ {
        SqlParam::Number(row.avg_device_time_us)
    } else if key == "avg_free"@ {
        SqlParam::Number(row.avg_free_time_us)
    } else if key == "occupancy"@ {
        match row.avg_occupancy_pct {
            Some(x) => SqlParam::Number(x),
            None => SqlParam::Null,
        }
    } else if key == "first"@ {
        SqlParam::Integer(row.first_call_order)
    } else {
        SqlParam::Number(row.total_device_time_us)
    }
}

proof fn lemma_keys_differ()
    ensures
        "device"@.len() == 6,
        "free"@.len() == 4,
        "total"@.len() == 5 && "total"@[0] == 't',
        "count"@.len() == 5 && "count"@[0] == 'c',
        "avg_device"@.len() == 10,
        "avg_free"@.len() == 8,
        "occupancy"@.len() == 9,
        "first"@.len() == 5 && "first"@[0] == 'f',
{
    reveal_strlit("device");
    reveal_strlit("free");
    reveal_strlit("total");
    reveal_strlit("count");
    reveal_strlit("avg_device");
    reveal_strlit("avg_free");
    reveal_strlit("occupancy");
    reveal_strlit("first");
}

/// Each key of an order of the operations names the column that it is about: sums,
/// averages, counts and occupancies from the largest down, and first calls from the
/// first one on.
pub proof fn keys_name_their_columns()
    ensures
        sort_of_key("device"@).column@ == "total_device_time_us"@,
        sort_of_key("free"@).column@ == "total_free_time_us"@,
        sort_of_key("total"@).column@ == "total_time_us"@,
        sort_of_key("count"@).column@ == "call_count"@,
        sort_of_key("avg_device"@).column@ == "avg_device_time_us"@,
        sort_of_key("avg_free"@).column@ == "avg_free_time_us"@,
        sort_of_key("occupancy"@).column@ == "avg_occupancy_pct"@,
        sort_of_key("first"@).column@ == "first_call_order"@,
        sort_of_key("device"@).label@ == "Device total"@,
        sort_of_key("free"@).label@ == "Free total"@,
        sort_of_key("total"@).label@ == "Combined total"@,
        sort_of_key("count"@).label@ == "Call count"@,
        sort_of_key("avg_device"@).label@ == "Device avg"@,
        sort_of_key("avg_free"@).label@ == "Free avg"@,
        sort_of_key("occupancy"@).label@ == "Occupancy avg"@,
        sort_of_key("first"@).label@ == "First call"@,
        forall|key: Seq<char>| #[trigger]
            sort_of_key(key).ascending <==> key == "first"@,
        forall|key: Seq<char>|
            (#[trigger] sort_of_key(key)).key@ == key || sort_of_key(key).key@ == "device"@,
{
    lemma_keys_differ();
}

proof fn lemma_order_cells(row: SummaryRow, key: Seq<char>)
    ensures
        op_cell(row, sort_of_key(key).column@) == ordering_cell(row, key),
{
    lemma_keys_differ();
    lemma_op_cells(row);
    keys_name_their_columns();
}

/// The statement that reads operations in the order of a key reads those of the run
/// whose names hold the text and no others. They are put in order by what the key is
/// about, from the largest down, or by their first calls from the first one on, and
/// there is room for one at least. A key that is none is that of the device times.
pub proof fn operations_come_in_the_order_asked_for(
    run_id: i64,
    q: Option<Seq<char>>,
    key: Seq<char>,
    limit: i64,
)
    ensures
        exists|query: Query|
            {
                &&& #[trigger] written(query) == summary_statement(
                    run_id,
                    q,
                    sort_of_key(key),
                    limit,
                )
                &&& query.columns == summary_column_names()
                &&& query.table == "op_summary"@
                &&& forall|row: SummaryRow| #[trigger]
                    selects(query, op_cells(row)) <==> row.run_id == run_id && is_looked_for(
                        row.op_name@,
                        q,
                    )
                &&& forall|row: SummaryRow| #[trigger]
                    op_cell(row, query.order) == ordering_cell(row, key)
                &&& query.ascending <==> key == "first"@
                &&& query.limit == Some(
                    if limit >= 1 {
                        limit
                    } else {
                        1
                    },
                )
                &&& query.offset is None
            },
{
    let sort = sort_of_key(key);
    let query = Query {
        columns: summary_column_names(),
        table: "op_summary"@,
        tests: asked_tests(run_id, q, None, None),
        order: sort.column@,
        ascending: sort.ascending,
        limit: Some(at_least(limit, 1)),
        offset: None,
    };
    let statement = summary_statement(run_id, q, sort, limit);
    lemma_name_tests(run_id, q);
    reveal_strlit(" ");
    reveal_strlit("ASC");
    reveal_strlit("DESC");
    reveal_strlit(" ASC");
    reveal_strlit(" DESC");
    assert(" "@ + "ASC"@ =~= " ASC"@);
    assert(" "@ + "DESC"@ =~= " DESC"@);
    assert(written(query).sql =~= statement.sql);
    assert(written(query).params =~= statement.params);
    keys_name_their_columns();
    assert forall|row: SummaryRow| #[trigger]
        selects(query, op_cells(row)) <==> row.run_id == run_id && is_looked_for(
            row.op_name@,
            q,
        ) by {
        let cells = op_cells(row);
        lemma_op_cells(row);
        let of_run = Query {
            tests: seq![Test::Equal { column: "run_id"@, value: SqlParam::Integer(run_id) }],
            ..query
        };
        assert(passes(of_run.tests[0], cells) <==> row.run_id == run_id);
        assert(selects(of_run, cells) <==> row.run_id == run_id);
        if let Some(text) = non_empty(q) {
            lemma_passes_next(
                of_run,
                query,
                Test::Like { column: "op_name"@, pattern: seq!['%'] + text + seq!['%'] },
                cells,
            );
        }
    }
    assert forall|row: SummaryRow| #[trigger]
        op_cell(row, query.order) == ordering_cell(row, key) by {
        lemma_order_cells(row, key);
    }
    assert(written(query) == statement);
}

/// The orders of the operations follow one another: sums of device time, of free time
/// and of both, counts, averages of device and of free time, occupancies, first calls,
/// and sums of device time again.
pub proof fn orders_follow_one_another()
    ensures
        sort_after_key("device"@) == sort_of_key("free"@),
        sort_after_key("free"@) == sort_of_key("total"@),
        sort_after_key("total"@) == sort_of_key("count"@),
        sort_after_key("count"@) == sort_of_key("avg_device"@),
        sort_after_key("avg_device"@) == sort_of_key("avg_free"@),
        sort_after_key("avg_free"@) == sort_of_key("occupancy"@),
        sort_after_key("occupancy"@) == sort_of_key("first"@),
        sort_after_key("first"@) == sort_of_key("device"@),
{
    lemma_keys_differ();
}

/// The runs are read with all that is shown of them, the newest first.
pub proof fn runs_are_read_newest_first()
    ensures
        RUNS@ == written(
            Query {
                columns: seq![
                    "id"@,
                    "label"@,
                    "source_type"@,
                    "source_path"@,
                    "imported_at"@,
                    "total_calls"@,
                    "unique_ops"@,
                ],
                table: "runs"@,
                tests: Seq::empty(),
                order: "id"@,
                ascending: false,
                limit: None,
                offset: None,
            },
        ).sql,
        LATEST_RUN@ == written(
            Query {
                columns: seq!["id"@],
                table: "runs"@,
                tests: Seq::empty(),
                order: "id"@,
                ascending: false,
                limit: None,
                offset: None,
            },
        ).sql + " LIMIT 1"@,
{
    reveal_strlit(
        "SELECT id, label, source_type, source_path, imported_at, total_calls, unique_ops FROM runs ORDER BY id DESC",
    );
    reveal_strlit("SELECT id FROM runs ORDER BY id DESC LIMIT 1");
    reveal_strlit("SELECT ");
    reveal_strlit(", ");
    reveal_strlit(" FROM ");
    reveal_strlit(" ORDER BY ");
    reveal_strlit(" DESC");
    reveal_strlit(" LIMIT 1");
    reveal_strlit("runs");
    reveal_strlit("id");
    reveal_strlit("label");
    reveal_strlit("source_type");
    reveal_strlit("source_path");
    reveal_strlit("imported_at");
    reveal_strlit("total_calls");
    reveal_strlit("unique_ops");
    let columns = seq![
        "id"@,
        "label"@,
        "source_type"@,
        "source_path"@,
        "imported_at"@,
        "total_calls"@,
        "unique_ops"@,
    ];
    let six = columns.drop_last();
    let five = six.drop_last();
    let four = five.drop_last();
    let three = four.drop_last();
    let two = three.drop_last();
    assert(join_texts(two.drop_last(), ", "@) == "id"@);
    assert(join_texts(two, ", "@) =~= "id"@ + ", "@ + "label"@);
    assert(join_texts(three, ", "@) == join_texts(two, ", "@) + ", "@ + "source_type"@);
    assert(join_texts(four, ", "@) == join_texts(three, ", "@) + ", "@ + "source_path"@);
    assert(join_texts(five, ", "@) == join_texts(four, ", "@) + ", "@ + "imported_at"@);
    assert(join_texts(six, ", "@) == join_texts(five, ", "@) + ", "@ + "total_calls"@);
    assert(join_texts(columns, ", "@) == join_texts(six, ", "@) + ", "@ + "unique_ops"@);
    assert(RUNS@ =~= "SELECT "@ + join_texts(columns, ", "@) + " FROM "@ + "runs"@ + Seq::empty()
        + " ORDER BY "@ + "id"@ + " DESC"@ + Seq::empty() + Seq::empty());
    assert(join_texts(seq!["id"@], ", "@) == "id"@);
    assert(LATEST_RUN@ =~= "SELECT "@ + "id"@ + " FROM "@ + "runs"@ + Seq::empty() + " ORDER BY "@
        + "id"@ + " DESC"@ + Seq::empty() + Seq::empty() + " LIMIT 1"@);
}

/// The sum of a column under its own name, which is none where there are no rows.
pub open spec fn summed(column: Seq<char>) -> Seq<char> {
    "COALESCE(SUM("@ + column + "), 0) AS "@ + column
}

/// The sum of a quantity over the operations that have an occupancy.
pub open spec fn summed_if_occupied(quantity: Seq<char>) -> Seq<char> {
    "SUM(CASE WHEN avg_occupancy_pct IS NOT NULL THEN "@ + quantity + " ELSE 0 END)"@
}

/// The sums of a run are those over the rows of its operations, each under its own
/// name. The occupancy is the average over all calls of the operations that have one.
pub proof fn totals_are_sums_over_the_operations(run_id: i64)
    ensures
        totals_statement(run_id).sql == "SELECT COUNT(*) AS unique_ops, "@ + summed("call_count"@)
            + ", "@ + summed("total_device_time_us"@) + ", "@ + summed("total_free_time_us"@)
            + ", "@ + summed("total_time_us"@) + ", "@ + summed_if_occupied(
            "avg_occupancy_pct * call_count"@,
        ) + " / NULLIF("@ + summed_if_occupied("call_count"@)
            + ", 0) AS avg_occupancy_pct FROM op_summary WHERE run_id = ?"@,
        totals_statement(run_id).params == seq![SqlParam::Integer(run_id)],
{
    reveal_strlit(
        "SELECT COUNT(*) AS unique_ops, COALESCE(SUM(call_count), 0) AS call_count, COALESCE(SUM(total_device_time_us), 0) AS total_device_time_us, COALESCE(SUM(total_free_time_us), 0) AS total_free_time_us, COALESCE(SUM(total_time_us), 0) AS total_time_us, SUM(CASE WHEN avg_occupancy_pct IS NOT NULL THEN avg_occupancy_pct * call_count ELSE 0 END) / NULLIF(SUM(CASE WHEN avg_occupancy_pct IS NOT NULL THEN call_count ELSE 0 END), 0) AS avg_occupancy_pct FROM op_summary WHERE run_id = ?",
    );
    reveal_strlit("SELECT COUNT(*) AS unique_ops, ");
    reveal_strlit("COALESCE(SUM(");
    reveal_strlit("), 0) AS ");
    reveal_strlit("SUM(CASE WHEN avg_occupancy_pct IS NOT NULL THEN ");
    reveal_strlit(" ELSE 0 END)");
    reveal_strlit("avg_occupancy_pct * call_count");
    reveal_strlit(" / NULLIF(");
    reveal_strlit(", 0) AS avg_occupancy_pct FROM op_summary WHERE run_id = ?");
    reveal_strlit(", ");
    reveal_strlit("call_count");
    reveal_strlit("total_device_time_us");
    reveal_strlit("total_free_time_us");
    reveal_strlit("total_time_us");
    assert(TOTALS@ =~= "SELECT COUNT(*) AS unique_ops, "@ + summed("call_count"@) + ", "@ + summed(
        "total_device_time_us"@,
    ) + ", "@ + summed("total_free_time_us"@) + ", "@ + summed("total_time_us"@) + ", "@
        + summed_if_occupied("avg_occupancy_pct * call_count"@) + " / NULLIF("@
        + summed_if_occupied("call_count"@)
        + ", 0) AS avg_occupancy_pct FROM op_summary WHERE run_id = ?"@);
}

/// What deletes a run deletes the run with its number, and no other.
pub proof fn deletions_name_their_run(run_id: i64)
    ensures
        delete_statement(run_id).sql == "DELETE FROM "@ + "runs"@ + " WHERE "@ + test_sql(
            Test::Equal { column: "id"@, value: SqlParam::Integer(run_id) },
        ),
        delete_statement(run_id).params == test_values(
            Test::Equal { column: "id"@, value: SqlParam::Integer(run_id) },
        ),
{
    reveal_strlit("DELETE FROM runs WHERE id = ?");
    reveal_strlit("DELETE FROM ");
    reveal_strlit("runs");
    reveal_strlit(" WHERE ");
    reveal_strlit("id");
    reveal_strlit(" = ?");
    assert("DELETE FROM "@ + "runs"@ + " WHERE "@ + ("id"@ + " = ?"@)
        =~= "DELETE FROM runs WHERE id = ?"@);
}

/// The viewer reads the calls and the device times of what is asked for: of the run
/// that is shown, with names that hold the filter, of the operation that is selected,
/// and with the number that is asked for.
pub proof fn viewers_read_the_calls_asked_for(app: App)
    requires
        app.run_idx < app.runs@.len(),
    ensures
        exists|query: Query|
            {
                &&& app.asked(Load::Calls) == AskView::Read(#[trigger] written(query))
                &&& query.table == "gpu_calls"@
                &&& forall|row: CallRow| #[trigger]
                    selects(query, call_cells(row)) <==> is_call_asked_for(
                        row,
                        app.runs@[app.run_idx as int].id,
                        Some(app.filter@),
                        opt_view(app.selected_op),
                        app.call_order,
                    )
                &&& query.order == "call_order"@ && query.ascending
                &&& app.calls_limit >= 1 ==> query.limit == Some(app.calls_limit)
                &&& query.offset == Some(0i64)
            },
        exists|query: Query|
            {
                &&& app.asked(Load::CallStats) == AskView::Read(#[trigger] written(query))
                &&& query.columns == seq!["device_time_us"@]
                &&& query.table == "gpu_calls"@
                &&& forall|row: CallRow| #[trigger]
                    selects(query, call_cells(row)) <==> is_call_asked_for(
                        row,
                        app.runs@[app.run_idx as int].id,
                        Some(app.filter@),
                        opt_view(app.selected_op),
                        app.call_order,
                    )
                &&& query.order == "device_time_us"@ && query.ascending
                &&& query.limit is None
            },
{
    let run_id = app.runs@[app.run_idx as int].id;
    let q = non_empty(Some(app.filter@));
    let op = opt_view(app.selected_op);
    calls_are_those_asked_for(run_id, q, op, app.call_order, app.calls_limit, 0);
    device_times_are_of_the_calls_asked_for(run_id, q, op, app.call_order);
    assert forall|row: CallRow| #[trigger]
        is_call_asked_for(row, run_id, q, op, app.call_order) <==> is_call_asked_for(
            row,
            run_id,
            Some(app.filter@),
            op,
            app.call_order,
        ) by {}
    let calls = choose|query: Query|
        {
            &&& #[trigger] written(query) == calls_statement(
                run_id,
                q,
                op,
                app.call_order,
                app.calls_limit,
                0,
            )
            &&& query.table == "gpu_calls"@
            &&& forall|row: CallRow| #[trigger]
                selects(query, call_cells(row)) <==> is_call_asked_for(
                    row,
                    run_id,
                    q,
                    op,
                    app.call_order,
                )
            &&& query.order == "call_order"@
            &&& query.ascending
            &&& query.limit == Some(
                if app.calls_limit >= 1 {
                    app.calls_limit
                } else {
                    1
                },
            )
            &&& query.offset == Some(0i64)
        };
    assert(app.asked(Load::Calls) == AskView::Read(written(calls)));
    let times = choose|query: Query|
        {
            &&& #[trigger] written(query) == call_stats_statement(run_id, q, op, app.call_order)
            &&& query.columns == seq!["device_time_us"@]
            &&& query.table == "gpu_calls"@
            &&& forall|row: CallRow| #[trigger]
                selects(query, call_cells(row)) <==> is_call_asked_for(
                    row,
                    run_id,
                    q,
                    op,
                    app.call_order,
                )
            &&& query.order == "device_time_us"@
            &&& query.ascending
            &&& query.limit is None
            &&& query.offset is None
        };
    assert(app.asked(Load::CallStats) == AskView::Read(written(times)));
}

/// The viewer reads the operations of the run that is shown whose names hold the
/// filter, in the order that is asked for, and the sums of that run. Where there is no
/// run, it reads nothing.
pub proof fn viewers_read_the_operations_asked_for(app: App)
    requires
        app.well_formed(),
    ensures
        app.run_idx < app.runs@.len() ==> {
            let run_id = app.runs@[app.run_idx as int].id;
            &&& app.asked(Load::Totals) == AskView::Read(totals_statement(run_id))
            &&& app.asked(Load::ClearedSummary) == app.asked(Load::Summary)
            &&& exists|query: Query|
                {
                    &&& app.asked(Load::Summary) == AskView::Read(#[trigger] written(query))
                    &&& query.table == "op_summary"@
                    &&& forall|row: SummaryRow| #[trigger]
                        selects(query, op_cells(row)) <==> row.run_id == run_id && is_looked_for(
                            row.op_name@,
                            Some(app.filter@),
                        )
                    &&& forall|row: SummaryRow| #[trigger]
                        op_cell(row, query.order) == ordering_cell(row, app.sort.key@)
                    &&& query.ascending <==> app.sort.key@ == "first"@
                    &&& app.summary_limit >= 1 ==> query.limit == Some(app.summary_limit)
                    &&& query.offset is None
                }
        },
        app.runs@.len() == 0 ==> forall|load: Load| #[trigger] app.asked(load) == AskView::Nothing,
{
    if app.run_idx < app.runs@.len() {
        let run_id = app.runs@[app.run_idx as int].id;
        let q = non_empty(Some(app.filter@));
        let key = app.sort.key@;
        let at = choose|i: int| 0 <= i < 8 && app.sort == #[trigger] all_sorts()[i];
        sorts_form_a_cycle(at);
        assert(app.sort == sort_of_key(key));
        operations_come_in_the_order_asked_for(run_id, q, key, app.summary_limit);
        let query = choose|query: Query|
            {
                &&& #[trigger] written(query) == summary_statement(
                    run_id,
                    q,
                    sort_of_key(key),
                    app.summary_limit,
                )
                &&& query.columns == summary_column_names()
                &&& query.table == "op_summary"@
                &&& forall|row: SummaryRow| #[trigger]
                    selects(query, op_cells(row)) <==> row.run_id == run_id && is_looked_for(
                        row.op_name@,
                        q,
                    )
                &&& forall|row: SummaryRow| #[trigger]
                    op_cell(row, query.order) == ordering_cell(row, key)
                &&& query.ascending <==> key == "first"@
                &&& query.limit == Some(
                    if app.summary_limit >= 1 {
                        app.summary_limit
                    } else {
                        1
                    },
                )
                &&& query.offset is None
            };
        assert(app.asked(Load::Summary) == AskView::Read(written(query)));
        assert forall|row: SummaryRow| #[trigger]
            selects(query, op_cells(row)) <==> row.run_id == run_id && is_looked_for(
                row.op_name@,
                Some(app.filter@),
            ) by {
            assert(is_looked_for(row.op_name@, q) == is_looked_for(
                row.op_name@,
                Some(app.filter@),
            ));
        }
    }
}

/// The viewer reads the calls up to five away from the selected one, of the run that is
/// shown.
pub proof fn viewers_read_what_is_near_the_selected_call(app: App, i: usize)
    requires
        app.run_idx < app.runs@.len(),
        app.calls_selected == Some(i),
        i < app.calls@.len(),
        1 <= app.calls@[i as int].call_order <= i64::MAX - 5,
    ensures
        exists|query: Query|
            {
                &&& app.asked(Load::Context) == AskView::Read(#[trigger] written(query))
                &&& query.table == "gpu_calls"@
                &&& forall|row: CallRow| #[trigger]
                    selects(query, call_cells(row)) <==> {
                        let order = app.calls@[i as int].call_order;
                        &&& row.run_id == app.runs@[app.run_idx as int].id
                        &&& row.call_order >= 1
                        &&& order - 5 <= row.call_order <= order + 5
                    }
                &&& query.order == "call_order"@ && query.ascending
                &&& query.limit is None
            },
{
    let run_id = app.runs@[app.run_idx as int].id;
    let order = app.calls@[i as int].call_order;
    context_is_what_is_near(run_id, order, 5);
    let query = choose|query: Query|
        {
            &&& #[trigger] written(query) == call_context_statement(run_id, order, 5)
            &&& query.columns == call_column_names()
            &&& query.table == "gpu_calls"@
            &&& forall|row: CallRow|
                {
                    let reach: int = if 5i64 >= 1 {
                        5i64 as int
                    } else {
                        1
                    };
                    #[trigger] selects(query, call_cells(row)) <==> {
                        &&& row.run_id == run_id
                        &&& row.call_order >= 1
                        &&& order - reach <= row.call_order <= order + reach
                    }
                }
            &&& query.order == "call_order"@
            &&& query.ascending
            &&& query.limit is None
            &&& query.offset is None
        };
    assert(app.asked(Load::Context) == AskView::Read(written(query)));
}

} // verus!
