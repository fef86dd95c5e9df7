//! The statements that read and change the database.
use vstd::prelude::*;

use crate::db::{
    all_sorts, call_column_names, call_columns, direction, summary_column_names, summary_columns,
    SortSpec,
};
use crate::decimal::{i64_text, int_text};
use crate::measure::Measure;
use crate::text::{
    as_str, contains_text, join, join_texts, non_empty, opt_str_view, opt_view, present, views,
};

verus! {

/// A value to bind to a placeholder.
#[derive(Debug)]
pub enum SqlValue {
    Null,
    Integer(i64),
    Number(Measure),
    Text(String),
}

/// What a bound value is.
pub enum SqlParam {
    Null,
    Integer(i64),
    Number(Measure),
    Text(Seq<char>),
}

impl View for SqlValue {
    type V = SqlParam;

    open spec fn view(&self) -> SqlParam {
        match *self {
            SqlValue::Null => SqlParam::Null,
            SqlValue::Integer(n) => SqlParam::Integer(n),
            SqlValue::Number(x) => SqlParam::Number(x),
            SqlValue::Text(s) => SqlParam::Text(s@),
        }
    }
}

/// What a sequence of bound values is.
pub open spec fn param_views(values: Seq<SqlValue>) -> Seq<SqlParam> {
    values.map_values(|v: SqlValue| v@)
}

/// A statement and the values of its placeholders.
#[derive(Debug)]
pub struct Statement {
    pub sql: String,
    pub params: Vec<SqlValue>,
}

/// What a statement is.
pub struct StatementView {
    pub sql: Seq<char>,
    pub params: Seq<SqlParam>,
}

impl View for Statement {
    type V = StatementView;

    open spec fn view(&self) -> StatementView {
        StatementView { sql: self.sql@, params: param_views(self.params@) }
    }
}

/// What reads columns of the rows of one run.
pub open spec fn select_sql(columns: Seq<Seq<char>>, table: Seq<char>) -> Seq<char> {
    "SELECT "@ + join_texts(columns, ", "@) + " FROM "@ + table + " WHERE run_id = ?"@
}

fn select(columns: &Vec<String>, table: &str) -> (r: String)
    ensures
        r@ == select_sql(views(columns@), table@),
{
    let mut sql = "SELECT ".to_owned();
    let list = join(columns, ", ");
    sql.append(list.as_str());
    sql.append(" FROM ");
    sql.append(table);
    sql.append(" WHERE run_id = ?");
    sql
}

/// A pattern for the names that hold a text.
pub open spec fn like_pattern(q: Seq<char>) -> Seq<char> {
    "%"@ + q + "%"@
}

fn like(q: &str) -> (r: String)
    ensures
        r@ == like_pattern(q@),
{
    let mut pattern = "%".to_owned();
    pattern.append(q);
    pattern.append("%");
    pattern
}

/// The condition on the name of an operation. An empty one is none.
pub open spec fn name_condition(q: Option<Seq<char>>) -> Seq<char> {
    match non_empty(q) {
        Some(_) => " AND op_name LIKE ?"@,
        None => Seq::empty(),
    }
}

/// The values of the condition on the name.
pub open spec fn name_params(q: Option<Seq<char>>) -> Seq<SqlParam> {
    match non_empty(q) {
        Some(text) => seq![SqlParam::Text(like_pattern(text))],
        None => Seq::empty(),
    }
}

/// The larger of two integers.
pub open spec fn at_least(n: i64, least: i64) -> i64 {
    if n < least {
        least
    } else {
        n
    }
}

/// What `n` is raised to where it is smaller than `least`.
pub fn raise(n: i64, least: i64) -> (r: i64)
    ensures
        r == at_least(n, least),
{
    if n < least {
        least
    } else {
        n
    }
}

/// What reads the summary of a run: the rows whose names hold `q`, in the
/// order of `sort`, no more than `limit`, which counts as one where it is less.
pub open spec fn summary_statement(
    run_id: i64,
    q: Option<Seq<char>>,
    sort: SortSpec,
    limit: i64,
) -> StatementView {
    StatementView {
        sql: select_sql(summary_column_names(), "op_summary"@) + name_condition(q) + " ORDER BY "@
            + sort.column@ + " "@ + direction(sort.ascending) + " LIMIT ?"@,
        params: seq![SqlParam::Integer(run_id)] + name_params(q) + seq![
            SqlParam::Integer(at_least(limit, 1)),
        ],
    }
}

/// Adds the condition on the name to a statement.
fn add_name_condition(statement: &mut Statement, q: Option<&str>)
    ensures
        final(statement)@.sql == old(statement)@.sql + name_condition(opt_str_view(q)),
        final(statement)@.params == old(statement)@.params + name_params(opt_str_view(q)),
{
    let ghost before = statement.params@;
    match present(q) {
        Some(text) => {
            statement.sql.append(" AND op_name LIKE ?");
            statement.params.push(SqlValue::Text(like(text)));
            assert(param_views(statement.params@) =~= param_views(before) + name_params(
                opt_str_view(q),
            ));
        },
        None => {
            assert(statement.sql@ =~= statement.sql@ + name_condition(opt_str_view(q)));
            assert(param_views(before) =~= param_views(before) + name_params(opt_str_view(q)));
        },
    }
}

/// Adds a value to a statement.
fn bind(statement: &mut Statement, value: SqlValue)
    ensures
        final(statement)@.sql == old(statement)@.sql,
        final(statement)@.params == old(statement)@.params.push(value@),
{
    let ghost before = statement.params@;
    statement.params.push(value);
    assert(param_views(statement.params@) =~= param_views(before).push(value@));
}

/// Adds text to a statement.
fn extend(statement: &mut Statement, sql: &str)
    ensures
        final(statement)@.sql == old(statement)@.sql + sql@,
        final(statement)@.params == old(statement)@.params,
{
    statement.sql.append(sql);
}

/// A statement on the rows of one run.
fn of_run(sql: String, run_id: i64) -> (r: Statement)
    ensures
        r@.sql == sql@,
        r@.params == seq![SqlParam::Integer(run_id)],
{
    let r = Statement { sql, params: vec![SqlValue::Integer(run_id)] };
    assert(r@.params =~= seq![SqlParam::Integer(run_id)]);
    r
}

/// What reads the summary of a run.
pub fn summary(run_id: i64, q: Option<&str>, sort: SortSpec, limit: i64) -> (r: Statement)
    ensures
        r@ == summary_statement(run_id, opt_str_view(q), sort, limit),
{
    let mut statement = of_run(select(&summary_columns(), "op_summary"), run_id);
    add_name_condition(&mut statement, q);
    extend(&mut statement, " ORDER BY ");
    extend(&mut statement, sort.column);
    extend(&mut statement, " ");
    extend(&mut statement, sort.order_sql());
    extend(&mut statement, " LIMIT ?");
    bind(&mut statement, SqlValue::Integer(raise(limit, 1)));
    assert(statement@.params =~= summary_statement(run_id, opt_str_view(q), sort, limit).params);
    statement
}

/// The conditions on the calls: on the name, on the operation, and on the
/// place in the order of calls.
pub open spec fn call_conditions(
    q: Option<Seq<char>>,
    op: Option<Seq<char>>,
    call_order: Option<i64>,
) -> Seq<char> {
    name_condition(q) + (match non_empty(op) {
        Some(_) => " AND op_name = ?"@,
        None => Seq::empty(),
    }) + (match call_order {
        Some(_) => " AND call_order = ?"@,
        None => Seq::empty(),
    })
}

/// The values of the conditions on the calls.
pub open spec fn call_params(
    q: Option<Seq<char>>,
    op: Option<Seq<char>>,
    call_order: Option<i64>,
) -> Seq<SqlParam> {
    name_params(q) + (match non_empty(op) {
        Some(text) => seq![SqlParam::Text(text)],
        None => Seq::empty(),
    }) + (match call_order {
        Some(order) => seq![SqlParam::Integer(order)],
        None => Seq::empty(),
    })
}

/// Adds the conditions on the calls to a statement.
fn add_call_conditions(
    statement: &mut Statement,
    q: Option<&str>,
    op: Option<&str>,
    call_order: Option<i64>,
)
    ensures
        final(statement)@.sql == old(statement)@.sql + call_conditions(
            opt_str_view(q),
            opt_str_view(op),
            call_order,
        ),
        final(statement)@.params == old(statement)@.params + call_params(
            opt_str_view(q),
            opt_str_view(op),
            call_order,
        ),
{
    let ghost before = statement@;
    add_name_condition(statement, q);
    match present(op) {
        Some(text) => {
            extend(statement, " AND op_name = ?");
            bind(statement, SqlValue::Text(text.to_owned()));
        },
        None => {},
    }
    match call_order {
        Some(order) => {
            extend(statement, " AND call_order = ?");
            bind(statement, SqlValue::Integer(order));
        },
        None => {},
    }
    assert(statement@.sql =~= before.sql + call_conditions(
        opt_str_view(q),
        opt_str_view(op),
        call_order,
    ));
    assert(statement@.params =~= before.params + call_params(
        opt_str_view(q),
        opt_str_view(op),
        call_order,
    ));
}

/// What reads calls of a run, in their order, from the place `offset` on, no
/// more than `limit`.
pub open spec fn calls_statement(
    run_id: i64,
    q: Option<Seq<char>>,
    op: Option<Seq<char>>,
    call_order: Option<i64>,
    limit: i64,
    offset: i64,
) -> StatementView {
    StatementView {
        sql: select_sql(call_column_names(), "gpu_calls"@) + call_conditions(q, op, call_order)
            + " ORDER BY call_order ASC LIMIT ? OFFSET ?"@,
        params: seq![SqlParam::Integer(run_id)] + call_params(q, op, call_order) + seq![
            SqlParam::Integer(at_least(limit, 1)),
            SqlParam::Integer(at_least(offset, 0)),
        ],
    }
}

/// What reads calls of a run.
pub fn calls(
    run_id: i64,
    q: Option<&str>,
    op: Option<&str>,
    call_order: Option<i64>,
    limit: i64,
    offset: i64,
) -> (r: Statement)
    ensures
        r@ == calls_statement(run_id, opt_str_view(q), opt_str_view(op), call_order, limit, offset),
{
    let mut statement = of_run(select(&call_columns(), "gpu_calls"), run_id);
    add_call_conditions(&mut statement, q, op, call_order);
    extend(&mut statement, " ORDER BY call_order ASC LIMIT ? OFFSET ?");
    bind(&mut statement, SqlValue::Integer(raise(limit, 1)));
    bind(&mut statement, SqlValue::Integer(raise(offset, 0)));
    assert(statement@.params =~= calls_statement(
        run_id,
        opt_str_view(q),
        opt_str_view(op),
        call_order,
        limit,
        offset,
    ).params);
    statement
}

/// What reads the device times of calls, from the shortest to the longest.
pub open spec fn call_stats_statement(
    run_id: i64,
    q: Option<Seq<char>>,
    op: Option<Seq<char>>,
    call_order: Option<i64>,
) -> StatementView {
    StatementView {
        sql: "SELECT device_time_us FROM gpu_calls WHERE run_id = ?"@ + call_conditions(
            q,
            op,
            call_order,
        ) + " ORDER BY device_time_us ASC"@,
        params: seq![SqlParam::Integer(run_id)] + call_params(q, op, call_order),
    }
}

/// What reads the device times of calls.
pub fn call_stats(
    run_id: i64,
    q: Option<&str>,
    op: Option<&str>,
    call_order: Option<i64>,
) -> (r: Statement)
    ensures
        r@ == call_stats_statement(run_id, opt_str_view(q), opt_str_view(op), call_order),
{
    let mut statement = of_run(
        "SELECT device_time_us FROM gpu_calls WHERE run_id = ?".to_owned(),
        run_id,
    );
    add_call_conditions(&mut statement, q, op, call_order);
    extend(&mut statement, " ORDER BY device_time_us ASC");
    statement
}

/// The first call of the context of a call.
pub open spec fn context_first(call_order: i64, radius: i64) -> int {
    let first = call_order - at_least(radius, 1);
    if first < 1 {
        1
    } else {
        first
    }
}

/// The last call of the context of a call.
pub open spec fn context_last(call_order: i64, radius: i64) -> int {
    call_order + at_least(radius, 1)
}

/// Whether the bounds of the context of a call are integers of 64 bits.
pub open spec fn context_fits(call_order: i64, radius: i64) -> bool {
    &&& i64::MIN <= call_order - at_least(radius, 1)
    &&& context_last(call_order, radius) <= i64::MAX
}

/// What reads a call and those around it.
pub open spec fn call_context_statement(run_id: i64, call_order: i64, radius: i64) -> StatementView {
    StatementView {
        sql: select_sql(call_column_names(), "gpu_calls"@)
            + " AND call_order BETWEEN ? AND ? ORDER BY call_order ASC"@,
        params: seq![
            SqlParam::Integer(run_id),
            SqlParam::Integer(context_first(call_order, radius) as i64),
            SqlParam::Integer(context_last(call_order, radius) as i64),
        ],
    }
}

/// Whether the bounds of the context of a call are integers of 64 bits.
pub fn has_context(call_order: i64, radius: i64) -> (r: bool)
    ensures
        r == context_fits(call_order, radius),
{
    let reach = raise(radius, 1);
    call_order >= i64::MIN + reach && call_order <= i64::MAX - reach
}

/// What reads a call and those around it.
pub fn call_context(run_id: i64, call_order: i64, radius: i64) -> (r: Statement)
    requires
        context_fits(call_order, radius),
    ensures
        r@ == call_context_statement(run_id, call_order, radius),
{
    let reach = raise(radius, 1);
    let mut statement = of_run(select(&call_columns(), "gpu_calls"), run_id);
    extend(&mut statement, " AND call_order BETWEEN ? AND ? ORDER BY call_order ASC");
    bind(&mut statement, SqlValue::Integer(raise(call_order - reach, 1)));
    bind(&mut statement, SqlValue::Integer(call_order + reach));
    assert(statement@.params =~= call_context_statement(run_id, call_order, radius).params);
    statement
}

/// What reads the sums over all operations of a run.
pub const TOTALS: &'static str =
    "SELECT COUNT(*) AS unique_ops, COALESCE(SUM(call_count), 0) AS call_count, COALESCE(SUM(total_device_time_us), 0) AS total_device_time_us, COALESCE(SUM(total_free_time_us), 0) AS total_free_time_us, COALESCE(SUM(total_time_us), 0) AS total_time_us, SUM(CASE WHEN avg_occupancy_pct IS NOT NULL THEN avg_occupancy_pct * call_count ELSE 0 END) / NULLIF(SUM(CASE WHEN avg_occupancy_pct IS NOT NULL THEN call_count ELSE 0 END), 0) AS avg_occupancy_pct FROM op_summary WHERE run_id = ?";

/// What reads the sums over all operations of a run.
pub open spec fn totals_statement(run_id: i64) -> StatementView {
    StatementView { sql: TOTALS@, params: seq![SqlParam::Integer(run_id)] }
}

/// What reads the sums over all operations of a run.
pub fn totals(run_id: i64) -> (r: Statement)
    ensures
        r@ == totals_statement(run_id),
{
    of_run(TOTALS.to_owned(), run_id)
}

/// What deletes a run.
pub open spec fn delete_statement(run_id: i64) -> StatementView {
    StatementView {
        sql: "DELETE FROM runs WHERE id = ?"@,
        params: seq![SqlParam::Integer(run_id)],
    }
}

/// What deletes a run.
pub fn delete_run(run_id: i64) -> (r: Statement)
    ensures
        r@ == delete_statement(run_id),
{
    of_run("DELETE FROM runs WHERE id = ?".to_owned(), run_id)
}

/// What a deletion that changed no row says.
pub open spec fn not_found_message(run_id: i64) -> Seq<char> {
    "run "@ + int_text(run_id as int) + " not found"@
}

/// Whether a deletion found its run, by the number of rows that it changed.
pub fn deleted(run_id: i64, changed: usize) -> (r: Result<(), String>)
    ensures
        match r {
            Ok(()) => changed != 0,
            Err(message) => changed == 0 && message@ == not_found_message(run_id),
        },
{
    if changed == 0 {
        let mut message = "run ".to_owned();
        message.append(i64_text(run_id).as_str());
        message.append(" not found");
        Err(message)
    } else {
        Ok(())
    }
}

/// What adds a row, with a placeholder for each column.
pub open spec fn insert_sql(table: Seq<char>, columns: Seq<Seq<char>>, sep: Seq<char>) -> Seq<char> {
    "INSERT INTO "@ + table + " ("@ + join_texts(columns, sep) + ") VALUES ("@ + join_texts(
        marks(columns.len()),
        sep,
    ) + ")"@
}

/// As many placeholders as asked for.
pub open spec fn marks(n: nat) -> Seq<Seq<char>> {
    Seq::new(n, |i: int| "?"@)
}

/// What adds a row, with a placeholder for each column.
pub fn insert(table: &str, columns: &Vec<String>, sep: &str) -> (r: String)
    ensures
        r@ == insert_sql(table@, views(columns@), sep@),
{
    let mut places: Vec<String> = Vec::new();
    let mut i: usize = 0;
    while i < columns.len()
        invariant
            i <= columns@.len(),
            places@.len() == i,
            forall|k: int| 0 <= k < i ==> (#[trigger] places@[k])@ == "?"@,
        decreases columns@.len() - i,
    {
        places.push("?".to_owned());
        i += 1;
    }
    assert(views(places@) =~= marks(views(columns@).len()));
    let mut sql = "INSERT INTO ".to_owned();
    sql.append(table);
    sql.append(" (");
    sql.append(join(columns, sep).as_str());
    sql.append(") VALUES (");
    sql.append(join(&places, sep).as_str());
    sql.append(")");
    sql
}

/// What stands for an optional text.
pub open spec fn text_param(s: Option<Seq<char>>) -> SqlParam {
    match s {
        Some(text) => SqlParam::Text(text),
        None => SqlParam::Null,
    }
}

/// What stands for an optional integer.
pub open spec fn integer_param(n: Option<i64>) -> SqlParam {
    match n {
        Some(n) => SqlParam::Integer(n),
        None => SqlParam::Null,
    }
}

/// What stands for an optional quantity.
pub open spec fn number_param(x: Option<Measure>) -> SqlParam {
    match x {
        Some(x) => SqlParam::Number(x),
        None => SqlParam::Null,
    }
}

/// What stands for an optional text.
pub fn text_value(s: Option<&str>) -> (r: SqlValue)
    ensures
        r@ == text_param(opt_str_view(s)),
{
    match s {
        Some(text) => SqlValue::Text(text.to_owned()),
        None => SqlValue::Null,
    }
}

/// What stands for an optional integer.
pub fn integer_value(n: Option<i64>) -> (r: SqlValue)
    ensures
        r@ == integer_param(n),
{
    match n {
        Some(n) => SqlValue::Integer(n),
        None => SqlValue::Null,
    }
}

/// What stands for an optional quantity.
pub fn number_value(x: Option<Measure>) -> (r: SqlValue)
    ensures
        r@ == number_param(x),
{
    match x {
        Some(x) => SqlValue::Number(x),
        None => SqlValue::Null,
    }
}

/// The columns of a new run.
pub open spec fn run_column_names() -> Seq<Seq<char>> {
    seq![
        "label"@,
        "source_type"@,
        "source_path"@,
        "source_size_bytes"@,
        "imported_at"@,
        "app_version"@,
        "categories"@,
        "include_name"@,
        "exclude_name"@,
        "min_device_time_us"@,
    ]
}

/// What is known of a run before its calls are.
#[derive(Debug)]
pub struct NewRun {
    pub label: Option<String>,
    pub source_type: String,
    pub source_path: String,
    pub source_size_bytes: Option<i64>,
    pub imported_at: String,
    pub app_version: String,
    pub categories: String,
    pub include_name: Option<String>,
    pub exclude_name: Option<String>,
    pub min_device_time_us: Measure,
}

/// What adds a run.
pub open spec fn insert_run_statement(run: NewRun) -> StatementView {
    StatementView {
        sql: insert_sql("runs"@, run_column_names(), ", "@),
        params: seq![
            text_param(opt_view(run.label)),
            SqlParam::Text(run.source_type@),
            SqlParam::Text(run.source_path@),
            integer_param(run.source_size_bytes),
            SqlParam::Text(run.imported_at@),
            SqlParam::Text(run.app_version@),
            SqlParam::Text(run.categories@),
            text_param(opt_view(run.include_name)),
            text_param(opt_view(run.exclude_name)),
            SqlParam::Number(run.min_device_time_us),
        ],
    }
}

/// What adds a run.
pub fn insert_run(run: &NewRun) -> (r: Statement)
    ensures
        r@ == insert_run_statement(*run),
{
    let columns: Vec<String> = vec![
        "label".to_owned(),
        "source_type".to_owned(),
        "source_path".to_owned(),
        "source_size_bytes".to_owned(),
        "imported_at".to_owned(),
        "app_version".to_owned(),
        "categories".to_owned(),
        "include_name".to_owned(),
        "exclude_name".to_owned(),
        "min_device_time_us".to_owned(),
    ];
    assert(views(columns@) =~= run_column_names());
    let statement = Statement {
        sql: insert("runs", &columns, ", "),
        params: vec![
            text_value(as_str(&run.label)),
            SqlValue::Text(run.source_type.clone()),
            SqlValue::Text(run.source_path.clone()),
            integer_value(run.source_size_bytes),
            SqlValue::Text(run.imported_at.clone()),
            SqlValue::Text(run.app_version.clone()),
            SqlValue::Text(run.categories.clone()),
            text_value(as_str(&run.include_name)),
            text_value(as_str(&run.exclude_name)),
            SqlValue::Number(run.min_device_time_us),
        ],
    };
    assert(statement@.params =~= insert_run_statement(*run).params);
    statement
}

/// What writes the counts of a run whose calls are known.
pub open spec fn update_run_statement(run_id: i64, total_calls: i64, unique_ops: i64) -> StatementView {
    StatementView {
        sql: "UPDATE runs SET total_calls = ?, unique_ops = ? WHERE id = ?"@,
        params: seq![
            SqlParam::Integer(total_calls),
            SqlParam::Integer(unique_ops),
            SqlParam::Integer(run_id),
        ],
    }
}

/// What writes the counts of a run whose calls are known.
pub fn update_run(run_id: i64, total_calls: i64, unique_ops: i64) -> (r: Statement)
    ensures
        r@ == update_run_statement(run_id, total_calls, unique_ops),
{
    let statement = Statement {
        sql: "UPDATE runs SET total_calls = ?, unique_ops = ? WHERE id = ?".to_owned(),
        params: vec![
            SqlValue::Integer(total_calls),
            SqlValue::Integer(unique_ops),
            SqlValue::Integer(run_id),
        ],
    };
    assert(statement@.params =~= update_run_statement(run_id, total_calls, unique_ops).params);
    statement
}

/// What lists the columns of a table.
pub fn table_info(table: &str) -> (r: String)
    ensures
        r@ == "PRAGMA table_info("@ + table@ + ")"@,
{
    let mut sql = "PRAGMA table_info(".to_owned();
    sql.append(table);
    sql.append(")");
    sql
}

/// What adds a column to a table.
pub open spec fn add_column_sql(table: Seq<char>, column: Seq<char>, kind: Seq<char>) -> Seq<char> {
    "ALTER TABLE "@ + table + " ADD COLUMN "@ + column + " "@ + kind + ";"@
}

/// What adds to a table each wanted column that it lacks. A table without
/// columns is one that does not exist, and is left alone.
pub open spec fn missing_columns_sql(
    table: Seq<char>,
    present: Seq<Seq<char>>,
    wanted: Seq<(Seq<char>, Seq<char>)>,
) -> Seq<Seq<char>>
    decreases wanted.len(),
{
    if wanted.len() == 0 {
        Seq::empty()
    } else {
        let before = missing_columns_sql(table, present, wanted.drop_last());
        let (column, kind) = wanted.last();
        if present.len() > 0 && !present.contains(column) {
            before.push(add_column_sql(table, column, kind))
        } else {
            before
        }
    }
}

/// The texts of pairs of strings.
pub open spec fn pair_views(pairs: Seq<(&'static str, &'static str)>) -> Seq<(Seq<char>, Seq<char>)> {
    pairs.map_values(|p: (&'static str, &'static str)| (p.0@, p.1@))
}

fn missing_columns(
    table: &str,
    present: &Vec<String>,
    wanted: &Vec<(&'static str, &'static str)>,
) -> (r: Vec<String>)
    ensures
        views(r@) == missing_columns_sql(table@, views(present@), pair_views(wanted@)),
{
    let mut out: Vec<String> = Vec::new();
    let mut i: usize = 0;
    assert(views(out@) =~= Seq::<Seq<char>>::empty());
    while i < wanted.len()
        invariant
            i <= wanted@.len(),
            views(out@) == missing_columns_sql(
                table@,
                views(present@),
                pair_views(wanted@).take(i as int),
            ),
        decreases wanted@.len() - i,
    {
        let ghost before = out@;
        let (column, kind) = wanted[i];
        if present.len() > 0 && !contains_text(present, column) {
            let mut sql = "ALTER TABLE ".to_owned();
            sql.append(table);
            sql.append(" ADD COLUMN ");
            sql.append(column);
            sql.append(" ");
            sql.append(kind);
            sql.append(";");
            out.push(sql);
            assert(views(out@) =~= views(before).push(
                add_column_sql(table@, column@, kind@),
            ));
        }
        proof {
            let longer = pair_views(wanted@).take(i + 1);
            assert(longer.drop_last() =~= pair_views(wanted@).take(i as int));
            assert(longer.last() == (column@, kind@));
        }
        i += 1;
    }
    assert(pair_views(wanted@).take(wanted@.len() as int) =~= pair_views(wanted@));
    out
}

/// The columns that early databases lack in the table of calls.
pub open spec fn later_call_columns() -> Seq<(Seq<char>, Seq<char>)> {
    seq![
        ("occupancy_pct"@, "REAL"@),
        ("blocks_per_sm"@, "REAL"@),
        ("warps_per_sm"@, "REAL"@),
        ("shared_memory"@, "REAL"@),
        ("grid"@, "TEXT"@),
        ("block"@, "TEXT"@),
    ]
}

/// The columns that early databases lack in the summary.
pub open spec fn later_summary_columns() -> Seq<(Seq<char>, Seq<char>)> {
    seq![
        ("avg_occupancy_pct"@, "REAL"@),
        ("min_occupancy_pct"@, "REAL"@),
        ("max_occupancy_pct"@, "REAL"@),
    ]
}

/// What brings the table of calls of an early database up to date.
pub fn call_table_changes(present: &Vec<String>) -> (r: Vec<String>)
    ensures
        views(r@) == missing_columns_sql("gpu_calls"@, views(present@), later_call_columns()),
{
    let wanted: Vec<(&'static str, &'static str)> = vec![
        ("occupancy_pct", "REAL"),
        ("blocks_per_sm", "REAL"),
        ("warps_per_sm", "REAL"),
        ("shared_memory", "REAL"),
        ("grid", "TEXT"),
        ("block", "TEXT"),
    ];
    assert(pair_views(wanted@) =~= later_call_columns());
    missing_columns("gpu_calls", present, &wanted)
}

/// What brings the summary of an early database up to date.
pub fn summary_table_changes(present: &Vec<String>) -> (r: Vec<String>)
    ensures
        views(r@) == missing_columns_sql("op_summary"@, views(present@), later_summary_columns()),
{
    let wanted: Vec<(&'static str, &'static str)> = vec![
        ("avg_occupancy_pct", "REAL"),
        ("min_occupancy_pct", "REAL"),
        ("max_occupancy_pct", "REAL"),
    ];
    assert(pair_views(wanted@) =~= later_summary_columns());
    missing_columns("op_summary", present, &wanted)
}

/// Bringing a table that exists up to date leaves no wanted column out: each
/// is there already, or a change adds it.
pub proof fn changes_complete_the_table(
    table: Seq<char>,
    present: Seq<Seq<char>>,
    wanted: Seq<(Seq<char>, Seq<char>)>,
    i: int,
)
    requires
        present.len() > 0,
        0 <= i < wanted.len(),
    ensures
        present.contains(wanted[i].0) || missing_columns_sql(table, present, wanted).contains(
            add_column_sql(table, wanted[i].0, wanted[i].1),
        ),
    decreases wanted.len(),
{
    let before = missing_columns_sql(table, present, wanted.drop_last());
    let all = missing_columns_sql(table, present, wanted);
    if i < wanted.len() - 1 {
        changes_complete_the_table(table, present, wanted.drop_last(), i);
        assert(wanted.drop_last()[i] == wanted[i]);
        let sql = add_column_sql(table, wanted[i].0, wanted[i].1);
        if before.contains(sql) {
            let k = choose|k: int| 0 <= k < before.len() && before[k] == sql;
            assert(all[k] == sql);
        }
    } else if !present.contains(wanted[i].0) {
        assert(all[all.len() - 1] == add_column_sql(table, wanted[i].0, wanted[i].1));
    }
}

/// A table that was brought up to date needs nothing more: with the columns that
/// were lacking added to those that were present, nothing is lacking.
pub proof fn table_needs_changes_once(
    table: Seq<char>,
    present: Seq<Seq<char>>,
    wanted: Seq<(Seq<char>, Seq<char>)>,
    now: Seq<Seq<char>>,
)
    requires
        forall|name: Seq<char>| #[trigger] present.contains(name) ==> now.contains(name),
        forall|i: int|
            0 <= i < wanted.len() && missing_columns_sql(table, present, wanted).contains(
                add_column_sql(table, (#[trigger] wanted[i]).0, wanted[i].1),
            ) ==> now.contains(wanted[i].0),
        present.len() == 0 ==> now.len() == 0,
    ensures
        missing_columns_sql(table, now, wanted).len() == 0,
{
    if present.len() == 0 {
        lemma_no_table(table, now, wanted);
    } else {
        assert forall|i: int| 0 <= i < wanted.len() implies now.contains(
            (#[trigger] wanted[i]).0,
        ) by {
            changes_complete_the_table(table, present, wanted, i);
        }
        complete_table_is_left_alone(table, now, wanted);
    }
}

proof fn lemma_no_table(
    table: Seq<char>,
    present: Seq<Seq<char>>,
    wanted: Seq<(Seq<char>, Seq<char>)>,
)
    requires
        present.len() == 0,
    ensures
        missing_columns_sql(table, present, wanted).len() == 0,
    decreases wanted.len(),
{
    if wanted.len() > 0 {
        lemma_no_table(table, present, wanted.drop_last());
    }
}

/// A table to which nothing is lacking is not changed.
pub proof fn complete_table_is_left_alone(
    table: Seq<char>,
    present: Seq<Seq<char>>,
    wanted: Seq<(Seq<char>, Seq<char>)>,
)
    requires
        forall|i: int| 0 <= i < wanted.len() ==> present.contains((#[trigger] wanted[i]).0),
    ensures
        missing_columns_sql(table, present, wanted).len() == 0,
    decreases wanted.len(),
{
    if wanted.len() > 0 {
        let init = wanted.drop_last();
        assert forall|i: int| 0 <= i < init.len() implies present.contains(
            (#[trigger] init[i]).0,
        ) by {
            assert(init[i] == wanted[i]);
        }
        complete_table_is_left_alone(table, present, init);
        assert(present.contains(wanted[wanted.len() - 1].0));
    }
}

/// How many placeholders a statement has.
pub open spec fn placeholders(sql: Seq<char>) -> nat
    decreases sql.len(),
{
    if sql.len() == 0 {
        0
    } else {
        placeholders(sql.drop_last()) + (if sql.last() == '?' {
            1nat
        } else {
            0nat
        })
    }
}

/// Whether a text has no placeholder.
pub open spec fn is_plain(s: Seq<char>) -> bool {
    forall|i: int| 0 <= i < s.len() ==> #[trigger] s[i] != '?'
}

proof fn lemma_plain(s: Seq<char>)
    requires
        is_plain(s),
    ensures
        placeholders(s) == 0,
    decreases s.len(),
{
    if s.len() > 0 {
        let init = s.drop_last();
        assert forall|i: int| 0 <= i < init.len() implies #[trigger] init[i] != '?' by {
            assert(init[i] == s[i]);
        }
        lemma_plain(init);
        assert(s.last() == s[s.len() - 1]);
    }
}

proof fn lemma_placeholders_concat(a: Seq<char>, b: Seq<char>)
    ensures
        placeholders(a + b) == placeholders(a) + placeholders(b),
    decreases b.len(),
{
    if b.len() == 0 {
        assert(a + b =~= a);
    } else {
        assert((a + b).drop_last() =~= a + b.drop_last());
        lemma_placeholders_concat(a, b.drop_last());
    }
}

/// A text that ends in its only placeholder.
proof fn lemma_ends_in_placeholder(s: Seq<char>)
    requires
        s.len() > 0,
        s.last() == '?',
        is_plain(s.drop_last()),
    ensures
        placeholders(s) == 1,
{
    lemma_plain(s.drop_last());
}

proof fn lemma_join_plain(parts: Seq<Seq<char>>, sep: Seq<char>)
    requires
        is_plain(sep),
        forall|i: int| 0 <= i < parts.len() ==> is_plain(#[trigger] parts[i]),
    ensures
        placeholders(join_texts(parts, sep)) == 0,
    decreases parts.len(),
{
    if parts.len() == 1 {
        lemma_plain(parts[0]);
    } else if parts.len() > 1 {
        let init = parts.drop_last();
        assert forall|i: int| 0 <= i < init.len() implies is_plain(#[trigger] init[i]) by {
            assert(init[i] == parts[i]);
        }
        lemma_join_plain(init, sep);
        lemma_plain(sep);
        assert(parts.last() == parts[parts.len() - 1]);
        lemma_plain(parts.last());
        lemma_placeholders_concat(join_texts(init, sep), sep);
        lemma_placeholders_concat(join_texts(init, sep) + sep, parts.last());
    }
}

pub proof fn lemma_column_names_plain()
    ensures
        forall|i: int|
            0 <= i < summary_column_names().len() ==> is_plain(#[trigger] summary_column_names()[i]),
        forall|i: int|
            0 <= i < call_column_names().len() ==> is_plain(#[trigger] call_column_names()[i]),
{
    reveal_strlit("avg_device_time_us");
    reveal_strlit("avg_free_time_us");
    reveal_strlit("avg_occupancy_pct");
    reveal_strlit("avg_time_us");
    reveal_strlit("block");
    reveal_strlit("blocks_per_sm");
    reveal_strlit("call_count");
    reveal_strlit("call_order");
    reveal_strlit("category");
    reveal_strlit("correlation");
    reveal_strlit("device");
    reveal_strlit("device_time_us");
    reveal_strlit("end_ts_us");
    reveal_strlit("external_id");
    reveal_strlit("first_call_order");
    reveal_strlit("free_time_us");
    reveal_strlit("grid");
    reveal_strlit("max_device_time_us");
    reveal_strlit("max_free_time_us");
    reveal_strlit("max_occupancy_pct");
    reveal_strlit("max_time_us");
    reveal_strlit("min_device_time_us");
    reveal_strlit("min_free_time_us");
    reveal_strlit("min_occupancy_pct");
    reveal_strlit("min_time_us");
    reveal_strlit("occupancy_pct");
    reveal_strlit("op_call_index");
    reveal_strlit("op_name");
    reveal_strlit("pid");
    reveal_strlit("run_id");
    reveal_strlit("shared_memory");
    reveal_strlit("start_ts_us");
    reveal_strlit("stream");
    reveal_strlit("tid");
    reveal_strlit("total_device_time_us");
    reveal_strlit("total_free_time_us");
    reveal_strlit("total_time_us");
    reveal_strlit("warps_per_sm");
    assert(is_plain("avg_device_time_us"@));
    assert(is_plain("avg_free_time_us"@));
    assert(is_plain("avg_occupancy_pct"@));
    assert(is_plain("avg_time_us"@));
    assert(is_plain("block"@));
    assert(is_plain("blocks_per_sm"@));
    assert(is_plain("call_count"@));
    assert(is_plain("call_order"@));
    assert(is_plain("category"@));
    assert(is_plain("correlation"@));
    assert(is_plain("device"@));
    assert(is_plain("device_time_us"@));
    assert(is_plain("end_ts_us"@));
    assert(is_plain("external_id"@));
    assert(is_plain("first_call_order"@));
    assert(is_plain("free_time_us"@));
    assert(is_plain("grid"@));
    assert(is_plain("max_device_time_us"@));
    assert(is_plain("max_free_time_us"@));
    assert(is_plain("max_occupancy_pct"@));
    assert(is_plain("max_time_us"@));
    assert(is_plain("min_device_time_us"@));
    assert(is_plain("min_free_time_us"@));
    assert(is_plain("min_occupancy_pct"@));
    assert(is_plain("min_time_us"@));
    assert(is_plain("occupancy_pct"@));
    assert(is_plain("op_call_index"@));
    assert(is_plain("op_name"@));
    assert(is_plain("pid"@));
    assert(is_plain("run_id"@));
    assert(is_plain("shared_memory"@));
    assert(is_plain("start_ts_us"@));
    assert(is_plain("stream"@));
    assert(is_plain("tid"@));
    assert(is_plain("total_device_time_us"@));
    assert(is_plain("total_free_time_us"@));
    assert(is_plain("total_time_us"@));
    assert(is_plain("warps_per_sm"@));
}

proof fn lemma_marks(n: nat, sep: Seq<char>)
    requires
        is_plain(sep),
    ensures
        placeholders(join_texts(marks(n), sep)) == n,
    decreases n,
{
    reveal_strlit("?");
    reveal_with_fuel(placeholders, 2);
    if n == 0 {
    } else if n == 1 {
        assert(marks(n)[0] == "?"@);
        lemma_ends_in_placeholder("?"@);
    } else {
        let less = (n - 1) as nat;
        assert(marks(n).drop_last() =~= marks(less));
        lemma_marks(less, sep);
        lemma_plain(sep);
        lemma_ends_in_placeholder("?"@);
        lemma_placeholders_concat(join_texts(marks(less), sep), sep);
        lemma_placeholders_concat(join_texts(marks(less), sep) + sep, "?"@);
    }
}

/// What adds a row has a placeholder for each column, where no name holds one.
pub proof fn insertion_places(table: Seq<char>, columns: Seq<Seq<char>>, sep: Seq<char>)
    requires
        is_plain(table),
        is_plain(sep),
        forall|i: int| 0 <= i < columns.len() ==> is_plain(#[trigger] columns[i]),
    ensures
        placeholders(insert_sql(table, columns, sep)) == columns.len(),
{
    reveal_strlit("INSERT INTO ");
    reveal_strlit(" (");
    reveal_strlit(") VALUES (");
    reveal_strlit(")");
    lemma_plain("INSERT INTO "@);
    lemma_plain(" ("@);
    lemma_plain(") VALUES ("@);
    lemma_plain(")"@);
    lemma_plain(table);
    lemma_join_plain(columns, sep);
    lemma_marks(columns.len(), sep);
    let a = "INSERT INTO "@ + table;
    let b = a + " ("@;
    let c = b + join_texts(columns, sep);
    let d = c + ") VALUES ("@;
    let e = d + join_texts(marks(columns.len()), sep);
    lemma_placeholders_concat("INSERT INTO "@, table);
    lemma_placeholders_concat(a, " ("@);
    lemma_placeholders_concat(b, join_texts(columns, sep));
    lemma_placeholders_concat(c, ") VALUES ("@);
    lemma_placeholders_concat(d, join_texts(marks(columns.len()), sep));
    lemma_placeholders_concat(e, ")"@);
}

proof fn lemma_select_places(columns: Seq<Seq<char>>, table: Seq<char>)
    requires
        is_plain(table),
        forall|i: int| 0 <= i < columns.len() ==> is_plain(#[trigger] columns[i]),
    ensures
        placeholders(select_sql(columns, table)) == 1,
{
    reveal_strlit("SELECT ");
    reveal_strlit(", ");
    reveal_strlit(" FROM ");
    reveal_strlit(" WHERE run_id = ?");
    lemma_plain("SELECT "@);
    lemma_plain(" FROM "@);
    lemma_plain(table);
    lemma_join_plain(columns, ", "@);
    lemma_ends_in_placeholder(" WHERE run_id = ?"@);
    let a = "SELECT "@ + join_texts(columns, ", "@);
    let b = a + " FROM "@;
    lemma_placeholders_concat("SELECT "@, join_texts(columns, ", "@));
    lemma_placeholders_concat(a, " FROM "@);
    lemma_placeholders_concat(b, table);
    lemma_placeholders_concat(b + table, " WHERE run_id = ?"@);
}

proof fn lemma_name_condition_places(q: Option<Seq<char>>)
    ensures
        placeholders(name_condition(q)) == name_params(q).len(),
{
    reveal_strlit(" AND op_name LIKE ?");
    if non_empty(q) is Some {
        lemma_ends_in_placeholder(" AND op_name LIKE ?"@);
    }
}

proof fn lemma_call_conditions_places(
    q: Option<Seq<char>>,
    op: Option<Seq<char>>,
    call_order: Option<i64>,
)
    ensures
        placeholders(call_conditions(q, op, call_order)) == call_params(q, op, call_order).len(),
{
    reveal_strlit(" AND op_name = ?");
    reveal_strlit(" AND call_order = ?");
    lemma_name_condition_places(q);
    lemma_ends_in_placeholder(" AND op_name = ?"@);
    lemma_ends_in_placeholder(" AND call_order = ?"@);
    let of_op: Seq<char> = match non_empty(op) {
        Some(_) => " AND op_name = ?"@,
        None => Seq::empty(),
    };
    let of_order: Seq<char> = match call_order {
        Some(_) => " AND call_order = ?"@,
        None => Seq::empty(),
    };
    lemma_placeholders_concat(name_condition(q), of_op);
    lemma_placeholders_concat(name_condition(q) + of_op, of_order);
}

/// The statement that reads the summary has a value for each placeholder.
pub proof fn summary_binds_each_place(
    run_id: i64,
    q: Option<Seq<char>>,
    sort: SortSpec,
    limit: i64,
)
    requires
        is_plain(sort.column@),
    ensures
        placeholders(summary_statement(run_id, q, sort, limit).sql) == summary_statement(
            run_id,
            q,
            sort,
            limit,
        ).params.len(),
{
    lemma_column_names_plain();
    reveal_strlit("op_summary");
    reveal_strlit(" ORDER BY ");
    reveal_strlit(" ");
    reveal_strlit("ASC");
    reveal_strlit("DESC");
    reveal_strlit(" LIMIT ?");
    lemma_select_places(summary_column_names(), "op_summary"@);
    lemma_name_condition_places(q);
    lemma_plain(" ORDER BY "@);
    lemma_plain(sort.column@);
    lemma_plain(" "@);
    lemma_plain(direction(sort.ascending));
    lemma_ends_in_placeholder(" LIMIT ?"@);
    let a = select_sql(summary_column_names(), "op_summary"@);
    let b = a + name_condition(q);
    let c = b + " ORDER BY "@;
    let d = c + sort.column@;
    let e = d + " "@;
    let f = e + direction(sort.ascending);
    lemma_placeholders_concat(a, name_condition(q));
    lemma_placeholders_concat(b, " ORDER BY "@);
    lemma_placeholders_concat(c, sort.column@);
    lemma_placeholders_concat(d, " "@);
    lemma_placeholders_concat(e, direction(sort.ascending));
    lemma_placeholders_concat(f, " LIMIT ?"@);
}

/// No way to order the summary that is offered holds a placeholder.
pub proof fn offered_sorts_are_plain(i: int)
    requires
        0 <= i < 8,
    ensures
        is_plain(all_sorts()[i].column@),
{
    lemma_column_names_plain();
    let names = summary_column_names();
    assert(is_plain(names[1]) && is_plain(names[4]) && is_plain(names[5]) && is_plain(names[6]));
    assert(is_plain(names[7]) && is_plain(names[8]) && is_plain(names[9]) && is_plain(names[11]));
    let sorts = all_sorts();
    assert(sorts[0].column == "total_device_time_us" && sorts[1].column == "total_free_time_us");
    assert(sorts[2].column == "total_time_us" && sorts[3].column == "call_count");
    assert(sorts[4].column == "avg_device_time_us" && sorts[5].column == "avg_free_time_us");
    assert(sorts[6].column == "avg_occupancy_pct" && sorts[7].column == "first_call_order");
}

/// The statement that reads calls has a value for each placeholder.
pub proof fn calls_bind_each_place(
    run_id: i64,
    q: Option<Seq<char>>,
    op: Option<Seq<char>>,
    call_order: Option<i64>,
    limit: i64,
    offset: i64,
)
    ensures
        placeholders(calls_statement(run_id, q, op, call_order, limit, offset).sql)
            == calls_statement(run_id, q, op, call_order, limit, offset).params.len(),
{
    lemma_column_names_plain();
    reveal_strlit("gpu_calls");
    reveal_strlit(" ORDER BY call_order ASC LIMIT ? OFFSET ?");
    lemma_select_places(call_column_names(), "gpu_calls"@);
    lemma_call_conditions_places(q, op, call_order);
    let tail = " ORDER BY call_order ASC LIMIT ? OFFSET ?"@;
    assert(placeholders(tail) == 2) by {
        let k = " ORDER BY call_order ASC LIMIT ?"@.len() as int;
        reveal_strlit(" ORDER BY call_order ASC LIMIT ?");
        let first = tail.take(k);
        let second = tail.skip(k);
        assert(first + second =~= tail);
        lemma_ends_in_placeholder(first);
        lemma_ends_in_placeholder(second);
        lemma_placeholders_concat(first, second);
    }
    let a = select_sql(call_column_names(), "gpu_calls"@);
    lemma_placeholders_concat(a, call_conditions(q, op, call_order));
    lemma_placeholders_concat(a + call_conditions(q, op, call_order), tail);
}

/// The statement that reads device times has a value for each placeholder.
pub proof fn call_stats_bind_each_place(
    run_id: i64,
    q: Option<Seq<char>>,
    op: Option<Seq<char>>,
    call_order: Option<i64>,
)
    ensures
        placeholders(call_stats_statement(run_id, q, op, call_order).sql) == call_stats_statement(
            run_id,
            q,
            op,
            call_order,
        ).params.len(),
{
    reveal_strlit("SELECT device_time_us FROM gpu_calls WHERE run_id = ?");
    reveal_strlit(" ORDER BY device_time_us ASC");
    let head = "SELECT device_time_us FROM gpu_calls WHERE run_id = ?"@;
    lemma_ends_in_placeholder(head);
    lemma_plain(" ORDER BY device_time_us ASC"@);
    lemma_call_conditions_places(q, op, call_order);
    lemma_placeholders_concat(head, call_conditions(q, op, call_order));
    lemma_placeholders_concat(
        head + call_conditions(q, op, call_order),
        " ORDER BY device_time_us ASC"@,
    );
}

/// The statement that reads the context of a call has a value for each
/// placeholder.
pub proof fn call_context_binds_each_place(run_id: i64, call_order: i64, radius: i64)
    ensures
        placeholders(call_context_statement(run_id, call_order, radius).sql)
            == call_context_statement(run_id, call_order, radius).params.len(),
{
    lemma_column_names_plain();
    reveal_strlit("gpu_calls");
    reveal_strlit(" AND call_order BETWEEN ? AND ? ORDER BY call_order ASC");
    lemma_select_places(call_column_names(), "gpu_calls"@);
    let tail = " AND call_order BETWEEN ? AND ? ORDER BY call_order ASC"@;
    assert(placeholders(tail) == 2) by {
        reveal_strlit(" AND call_order BETWEEN ?");
        reveal_strlit(" AND ?");
        let j = " AND call_order BETWEEN ?"@.len() as int;
        let k = j + " AND ?"@.len() as int;
        let first = tail.take(j);
        let second = tail.subrange(j, k);
        let third = tail.skip(k);
        assert(first + second + third =~= tail);
        lemma_ends_in_placeholder(first);
        lemma_ends_in_placeholder(second);
        lemma_plain(third);
        lemma_placeholders_concat(first, second);
        lemma_placeholders_concat(first + second, third);
    }
    lemma_placeholders_concat(select_sql(call_column_names(), "gpu_calls"@), tail);
}

/// The statements that read the sums of a run, delete a run and write its counts
/// have a value for each placeholder.
pub proof fn run_statements_bind_each_place(run_id: i64, total_calls: i64, unique_ops: i64)
    ensures
        placeholders(totals_statement(run_id).sql) == totals_statement(run_id).params.len(),
        placeholders(delete_statement(run_id).sql) == delete_statement(run_id).params.len(),
        placeholders(update_run_statement(run_id, total_calls, unique_ops).sql)
            == update_run_statement(run_id, total_calls, unique_ops).params.len(),
{
    reveal_strlit(
        "SELECT COUNT(*) AS unique_ops, COALESCE(SUM(call_count), 0) AS call_count, COALESCE(SUM(total_device_time_us), 0) AS total_device_time_us, COALESCE(SUM(total_free_time_us), 0) AS total_free_time_us, COALESCE(SUM(total_time_us), 0) AS total_time_us, SUM(CASE WHEN avg_occupancy_pct IS NOT NULL THEN avg_occupancy_pct * call_count ELSE 0 END) / NULLIF(SUM(CASE WHEN avg_occupancy_pct IS NOT NULL THEN call_count ELSE 0 END), 0) AS avg_occupancy_pct FROM op_summary WHERE run_id = ?",
    );
    lemma_ends_in_placeholder(TOTALS@);
    reveal_strlit("DELETE FROM runs WHERE id = ?");
    lemma_ends_in_placeholder("DELETE FROM runs WHERE id = ?"@);
    let update = "UPDATE runs SET total_calls = ?, unique_ops = ? WHERE id = ?"@;
    reveal_strlit("UPDATE runs SET total_calls = ?, unique_ops = ? WHERE id = ?");
    reveal_strlit("UPDATE runs SET total_calls = ?");
    reveal_strlit(", unique_ops = ?");
    let j = "UPDATE runs SET total_calls = ?"@.len() as int;
    let k = j + ", unique_ops = ?"@.len() as int;
    let first = update.take(j);
    let second = update.subrange(j, k);
    let third = update.skip(k);
    assert(first + second + third =~= update);
    lemma_ends_in_placeholder(first);
    lemma_ends_in_placeholder(second);
    lemma_ends_in_placeholder(third);
    lemma_placeholders_concat(first, second);
    lemma_placeholders_concat(first + second, third);
}

/// The statement that adds a run has a value for each placeholder.
pub proof fn insert_run_binds_each_place(run: NewRun)
    ensures
        placeholders(insert_run_statement(run).sql) == insert_run_statement(run).params.len(),
{
    reveal_strlit("runs");
    reveal_strlit(", ");
    reveal_strlit("label");
    reveal_strlit("source_type");
    reveal_strlit("source_path");
    reveal_strlit("source_size_bytes");
    reveal_strlit("imported_at");
    reveal_strlit("app_version");
    reveal_strlit("categories");
    reveal_strlit("include_name");
    reveal_strlit("exclude_name");
    reveal_strlit("min_device_time_us");
    assert(is_plain("label"@));
    assert(is_plain("source_type"@));
    assert(is_plain("source_path"@));
    assert(is_plain("source_size_bytes"@));
    assert(is_plain("imported_at"@));
    assert(is_plain("app_version"@));
    assert(is_plain("categories"@));
    assert(is_plain("include_name"@));
    assert(is_plain("exclude_name"@));
    assert(is_plain("min_device_time_us"@));
    insertion_places("runs"@, run_column_names(), ", "@);
}

/// The context of a call holds the call, and reaches no further than asked.
pub proof fn context_holds_its_call(call_order: i64, radius: i64)
    requires
        call_order >= 1,
    ensures
        1 <= context_first(call_order, radius) <= call_order < context_last(call_order, radius),
        radius >= 1 ==> call_order - context_first(call_order, radius) <= radius,
        radius >= 1 ==> context_last(call_order, radius) - call_order == radius,
{
}

} // verus!
