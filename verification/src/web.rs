//! What the server does with a request.
use vstd::prelude::*;
use vstd::utf8::encode_utf8;

use crate::body::{
    field_views, flag, given_integer, given_measure, given_text, integer, is_set, non_empty_string,
    quantity, Field, FieldView,
};
use crate::db::{sort_of_key, SortSpec};
use crate::decimal::{i64_value, parse_i64};
use crate::http::{
    is_unescaped, json_error, plain_member, response_bytes, value_views, JSON_TYPE,
};
use crate::importer::{ImportCsvOptions, ImportTraceOptions};
use crate::measure::Measure;
use crate::query::{
    call_context, call_context_statement, calls, calls_statement, context_fits, has_context,
    summary, summary_statement, Statement, StatementView,
};
use crate::table::{lookup, Table};
use crate::text::{non_empty, opt_str_view, opt_view, present, same_text, trimmed};

verus! {

/// What a request asks for.
#[derive(Clone, Copy, Debug, PartialEq, Eq, Structural)]
pub enum Route {
    Page,
    Runs,
    Summary,
    Calls,
    CallContext,
    SummaryCsv,
    CallsCsv,
    ImportTrace,
    ImportCsv,
    DeleteRun,
    Nothing,
}

/// What is asked for by a method and a path.
pub open spec fn route_of(method: Seq<char>, path: Seq<char>) -> Route {
    if method == "GET"@ {
        if path == "/"@ {
            Route::Page
        } else if path == "/api/runs"@ {
            Route::Runs
        } else if path == "/api/summary"@ {
            Route::Summary
        } else if path == "/api/calls"@ {
            Route::Calls
        } else if path == "/api/call-context"@ {
            Route::CallContext
        } else if path == "/download/summary.csv"@ {
            Route::SummaryCsv
        } else if path == "/download/calls.csv"@ {
            Route::CallsCsv
        } else {
            Route::Nothing
        }
    } else if method == "POST"@ {
        if path == "/api/import-trace"@ {
            Route::ImportTrace
        } else if path == "/api/import-csv"@ {
            Route::ImportCsv
        } else if path == "/api/delete-run"@ {
            Route::DeleteRun
        } else {
            Route::Nothing
        }
    } else {
        Route::Nothing
    }
}

/// What is asked for by a method and a path.
pub fn route(method: &str, path: &str) -> (r: Route)
    ensures
        r == route_of(method@, path@),
{
    if same_text(method, "GET") {
        if same_text(path, "/") {
            Route::Page
        } else if same_text(path, "/api/runs") {
            Route::Runs
        } else if same_text(path, "/api/summary") {
            Route::Summary
        } else if same_text(path, "/api/calls") {
            Route::Calls
        } else if same_text(path, "/api/call-context") {
            Route::CallContext
        } else if same_text(path, "/download/summary.csv") {
            Route::SummaryCsv
        } else if same_text(path, "/download/calls.csv") {
            Route::CallsCsv
        } else {
            Route::Nothing
        }
    } else if same_text(method, "POST") {
        if same_text(path, "/api/import-trace") {
            Route::ImportTrace
        } else if same_text(path, "/api/import-csv") {
            Route::ImportCsv
        } else if same_text(path, "/api/delete-run") {
            Route::DeleteRun
        } else {
            Route::Nothing
        }
    } else {
        Route::Nothing
    }
}

/// Whether a route changes the database.
pub open spec fn changes_database(route: Route) -> bool {
    route is ImportTrace || route is ImportCsv || route is DeleteRun
}

/// Only a request to post changes the database.
pub proof fn only_posts_change_the_database(method: Seq<char>, path: Seq<char>)
    ensures
        changes_database(route_of(method, path)) ==> method == "POST"@,
{
}

/// The answer to a request that is refused: a JSON object that says why.
pub open spec fn refusal(status: u16, message: Seq<char>) -> Seq<u8> {
    response_bytes(status, JSON_TYPE@, encode_utf8(plain_member("error"@, message)), None)
}

fn refuse(status: u16, message: &str) -> (r: Vec<u8>)
    requires
        is_unescaped(message@),
    ensures
        r@ == refusal(status, message@),
{
    json_error(status, message)
}

/// The answer to a request that asks for nothing there is.
pub fn not_found() -> (r: Vec<u8>)
    ensures
        r@ == refusal(404, "not found"@),
{
    proof {
        reveal_strlit("not found");
    }
    refuse(404, "not found")
}

/// A number within bounds.
pub open spec fn clamped(n: i64, least: i64, most: i64) -> i64 {
    if n < least {
        least
    } else if n > most {
        most
    } else {
        n
    }
}

fn clamp(n: i64, least: i64, most: i64) -> (r: i64)
    ensures
        r == clamped(n, least, most),
{
    if n < least {
        least
    } else if n > most {
        most
    } else {
        n
    }
}

/// A number that is put within bounds is within them, and stays what it is where
/// it was.
pub proof fn clamping_keeps_bounds(n: i64, least: i64, most: i64)
    requires
        least <= most,
    ensures
        least <= clamped(n, least, most) <= most,
        least <= n <= most ==> clamped(n, least, most) == n,
{
}

/// The integer that a parameter is, or another where it is none.
pub open spec fn param_integer(
    params: Map<Seq<char>, Seq<char>>,
    key: Seq<char>,
    default: i64,
) -> i64 {
    match lookup(params, key) {
        Some(text) => match i64_value(text) {
            Some(n) => n,
            None => default,
        },
        None => default,
    }
}

/// The integer that a parameter is, or another where it is none.
pub fn int_param(params: &Table<String>, key: &str, default: i64) -> (r: i64)
    ensures
        r == param_integer(value_views(params@), key@, default),
{
    match params.get(key) {
        Some(text) => match parse_i64(text.as_str()) {
            Some(n) => n,
            None => default,
        },
        None => default,
    }
}

fn text_param<'a>(params: &'a Table<String>, key: &str) -> (r: Option<&'a str>)
    ensures
        opt_str_view(r) == non_empty(lookup(value_views(params@), key@)),
{
    match params.get(key) {
        Some(text) => present(Some(text.as_str())),
        None => None,
    }
}

/// Which run a request is about.
#[derive(Clone, Copy, Debug, PartialEq, Eq, Structural)]
pub enum RunChoice {
    Given(i64),
    Latest,
    /// One is given that is not a number.
    Invalid,
}

/// Which run the parameters of a request name.
pub open spec fn chosen_run(params: Map<Seq<char>, Seq<char>>) -> RunChoice {
    match non_empty(lookup(params, "run_id"@)) {
        Some(text) => match i64_value(text) {
            Some(run_id) => RunChoice::Given(run_id),
            None => RunChoice::Invalid,
        },
        None => RunChoice::Latest,
    }
}

/// Which run the parameters of a request name.
pub fn run_id(params: &Table<String>) -> (r: RunChoice)
    ensures
        r == chosen_run(value_views(params@)),
{
    match text_param(params, "run_id") {
        Some(text) => match parse_i64(text) {
            Some(run_id) => RunChoice::Given(run_id),
            None => RunChoice::Invalid,
        },
        None => RunChoice::Latest,
    }
}

/// The sort that the parameters of a request name.
pub open spec fn chosen_sort(params: Map<Seq<char>, Seq<char>>) -> SortSpec {
    match lookup(params, "sort"@) {
        Some(key) => sort_of_key(key),
        None => sort_of_key("device"@),
    }
}

/// What the operations are read with that a request asks for.
pub open spec fn summary_asked(run_id: i64, params: Map<Seq<char>, Seq<char>>) -> StatementView {
    summary_statement(
        run_id,
        non_empty(lookup(params, "q"@)),
        chosen_sort(params),
        clamped(param_integer(params, "limit"@, 100), 1, 1000),
    )
}

/// What the calls are read with that a request asks for.
pub open spec fn calls_asked(run_id: i64, params: Map<Seq<char>, Seq<char>>) -> StatementView {
    calls_statement(
        run_id,
        non_empty(lookup(params, "q"@)),
        non_empty(lookup(params, "op"@)),
        match lookup(params, "call_order"@) {
            Some(text) => i64_value(text),
            None => None,
        },
        clamped(param_integer(params, "limit"@, 200), 1, 1000),
        clamped(param_integer(params, "offset"@, 0), 0, i64::MAX),
    )
}

/// What the operations are read with that a request asks for as a table.
pub open spec fn summary_table_asked(
    run_id: i64,
    params: Map<Seq<char>, Seq<char>>,
) -> StatementView {
    summary_statement(
        run_id,
        non_empty(lookup(params, "q"@)),
        sort_of_key("first"@),
        10_000_000,
    )
}

/// What the calls are read with that a request asks for as a table.
pub open spec fn calls_table_asked(
    run_id: i64,
    params: Map<Seq<char>, Seq<char>>,
) -> StatementView {
    calls_statement(
        run_id,
        None,
        None,
        None,
        clamped(param_integer(params, "limit"@, 1_000_000), 1, 10_000_000),
        0,
    )
}

/// What reads the operations that a request asks for.
pub fn api_summary(run_id: i64, params: &Table<String>) -> (r: Statement)
    ensures
        r@ == summary_statement(
            run_id,
            non_empty(lookup(value_views(params@), "q"@)),
            chosen_sort(value_views(params@)),
            clamped(param_integer(value_views(params@), "limit"@, 100), 1, 1000),
        ),
        r@ == summary_asked(run_id, value_views(params@)),
{
    let sort = match params.get("sort") {
        Some(key) => SortSpec::from_key(key.as_str()),
        None => SortSpec::from_key("device"),
    };
    let limit = clamp(int_param(params, "limit", 100), 1, 1000);
    summary(run_id, text_param(params, "q"), sort, limit)
}

/// What reads the calls that a request asks for.
pub fn api_calls(run_id: i64, params: &Table<String>) -> (r: Statement)
    ensures
        r@ == calls_statement(
            run_id,
            non_empty(lookup(value_views(params@), "q"@)),
            non_empty(lookup(value_views(params@), "op"@)),
            match lookup(value_views(params@), "call_order"@) {
                Some(text) => i64_value(text),
                None => None,
            },
            clamped(param_integer(value_views(params@), "limit"@, 200), 1, 1000),
            clamped(param_integer(value_views(params@), "offset"@, 0), 0, i64::MAX),
        ),
        r@ == calls_asked(run_id, value_views(params@)),
{
    let limit = clamp(int_param(params, "limit", 200), 1, 1000);
    let offset = clamp(int_param(params, "offset", 0), 0, i64::MAX);
    let call_order: Option<i64> = match params.get("call_order") {
        Some(text) => parse_i64(text.as_str()),
        None => None,
    };
    calls(run_id, text_param(params, "q"), text_param(params, "op"), call_order, limit, offset)
}

/// What becomes of a request for the calls around a call.
#[derive(Debug)]
pub enum ContextAnswer {
    /// The calls are read.
    Ask { call_order: i64, radius: i64, statement: Statement },
    /// The request is refused with an answer.
    Refused(Vec<u8>),
    /// The numbers of the calls around the call are none.
    OutOfRange,
}

/// What becomes of a request for the calls around a call.
pub enum ContextAnswerView {
    Ask { call_order: i64, radius: i64, statement: StatementView },
    Refused(Seq<u8>),
    OutOfRange,
}

impl View for ContextAnswer {
    type V = ContextAnswerView;

    open spec fn view(&self) -> ContextAnswerView {
        match *self {
            ContextAnswer::Ask { call_order, radius, statement } => ContextAnswerView::Ask {
                call_order,
                radius,
                statement: statement@,
            },
            ContextAnswer::Refused(answer) => ContextAnswerView::Refused(answer@),
            ContextAnswer::OutOfRange => ContextAnswerView::OutOfRange,
        }
    }
}

/// What becomes of a request for the calls around a call.
pub open spec fn context_asked(
    run_id: i64,
    params: Map<Seq<char>, Seq<char>>,
) -> ContextAnswerView {
    let call_order = param_integer(params, "call_order"@, 0);
    let radius = clamped(param_integer(params, "radius"@, 5), 1, 50);
    if call_order <= 0 {
        ContextAnswerView::Refused(refusal(400, "call_order is required"@))
    } else if context_fits(call_order, radius) {
        ContextAnswerView::Ask {
            call_order,
            radius,
            statement: call_context_statement(run_id, call_order, radius),
        }
    } else {
        ContextAnswerView::OutOfRange
    }
}

/// What reads the calls around the one that a request asks for.
pub fn api_call_context(run_id: i64, params: &Table<String>) -> (r: ContextAnswer)
    ensures
        ({
            let given = value_views(params@);
            let order = param_integer(given, "call_order"@, 0);
            let reach = clamped(param_integer(given, "radius"@, 5), 1, 50);
            match r {
                ContextAnswer::Ask { call_order, radius, statement } => {
                    &&& order > 0
                    &&& context_fits(order, reach)
                    &&& call_order == order
                    &&& radius == reach
                    &&& statement@ == call_context_statement(run_id, order, reach)
                },
                ContextAnswer::Refused(answer) => {
                    &&& order <= 0
                    &&& answer@ == refusal(400, "call_order is required"@)
                },
                ContextAnswer::OutOfRange => order > 0 && !context_fits(order, reach),
            }
        }),
        r@ == context_asked(run_id, value_views(params@)),
{
    let call_order = int_param(params, "call_order", 0);
    if call_order <= 0 {
        proof {
            reveal_strlit("call_order is required");
        }
        return ContextAnswer::Refused(refuse(400, "call_order is required"));
    }
    let radius = clamp(int_param(params, "radius", 5), 1, 50);
    if !has_context(call_order, radius) {
        return ContextAnswer::OutOfRange;
    }
    ContextAnswer::Ask { call_order, radius, statement: call_context(run_id, call_order, radius) }
}

/// What reads the operations that a request asks for as a table.
pub fn download_summary(run_id: i64, params: &Table<String>) -> (r: Statement)
    ensures
        r@ == summary_statement(
            run_id,
            non_empty(lookup(value_views(params@), "q"@)),
            sort_of_key("first"@),
            10_000_000,
        ),
        r@ == summary_table_asked(run_id, value_views(params@)),
{
    summary(run_id, text_param(params, "q"), SortSpec::from_key("first"), 10_000_000)
}

/// What reads the calls that a request asks for as a table.
pub fn download_calls(run_id: i64, params: &Table<String>) -> (r: Statement)
    ensures
        r@ == calls_statement(
            run_id,
            None,
            None,
            None,
            clamped(param_integer(value_views(params@), "limit"@, 1_000_000), 1, 10_000_000),
            0,
        ),
        r@ == calls_table_asked(run_id, value_views(params@)),
{
    let limit = clamp(int_param(params, "limit", 1_000_000), 1, 10_000_000);
    calls(run_id, None, None, None, limit, 0)
}

/// Which run a request asks to delete, or the answer that refuses it.
pub fn api_delete_run(fields: &Table<Field>) -> (r: Result<i64, Vec<u8>>)
    ensures
        match r {
            Ok(run_id) => run_id == given_integer(field_views(fields@), "run_id"@) && run_id > 0,
            Err(answer) => {
                &&& given_integer(field_views(fields@), "run_id"@) <= 0
                &&& answer@ == refusal(400, "run_id is required"@)
            },
        },
{
    let run_id = integer(fields, "run_id");
    if run_id <= 0 {
        proof {
            reveal_strlit("run_id is required");
        }
        return Err(refuse(400, "run_id is required"));
    }
    Ok(run_id)
}

/// The text that a path was made from.
pub uninterp spec fn path_text(path: std::path::PathBuf) -> Seq<char>;

/// `std::path::PathBuf::from`: the path that a text is.
#[verifier::external_body]
fn path_from(text: String) -> (r: std::path::PathBuf)
    ensures
        path_text(r) == text@,
{
    std::path::PathBuf::from(text)
}

/// Whether an import of a trace is the one that the body of a request asks for.
pub open spec fn is_trace_request(
    options: ImportTraceOptions,
    fields: Map<Seq<char>, FieldView>,
    trace: Seq<char>,
) -> bool {
    &&& path_text(options.trace_path) == trace
    &&& opt_view(options.label) == given_text(fields, "label"@)
    &&& options.categories@ == (match given_text(fields, "categories"@) {
        Some(categories) => categories,
        None => "kernel"@,
    })
    &&& options.all_categories == is_set(fields, "all_categories"@)
    &&& opt_view(options.include_name) == given_text(fields, "include_name"@)
    &&& opt_view(options.exclude_name) == given_text(fields, "exclude_name"@)
    &&& options.min_device_time_us == given_measure(fields, "min_device_time_us"@)
    &&& options.batch_size == 1000
    &&& options.progress_interval == 0
}

/// The import of a trace that a request asks for, or why there is none.
pub fn api_import_trace(db_path: std::path::PathBuf, fields: &Table<Field>) -> (r: Result<
    ImportTraceOptions,
    &'static str,
>)
    ensures
        match (r, given_text(field_views(fields@), "trace"@)) {
            (Ok(options), Some(trace)) => {
                &&& options.db_path == db_path
                &&& is_trace_request(options, field_views(fields@), trace)
            },
            (Err(message), None) => message@ == "trace path is required"@,
            _ => false,
        },
{
    let trace = match non_empty_string(fields, "trace") {
        Some(trace) => trace,
        None => {
            return Err("trace path is required");
        },
    };
    let mut options = ImportTraceOptions::new(db_path, path_from(trace));
    options.label = non_empty_string(fields, "label");
    options.categories = match non_empty_string(fields, "categories") {
        Some(categories) => categories,
        None => "kernel".to_owned(),
    };
    options.all_categories = flag(fields, "all_categories");
    options.include_name = non_empty_string(fields, "include_name");
    options.exclude_name = non_empty_string(fields, "exclude_name");
    options.min_device_time_us = quantity(fields, "min_device_time_us");
    options.progress_interval = 0;
    Ok(options)
}

/// Whether an import of a table is the one that the body of a request asks for.
pub open spec fn is_csv_request(
    options: ImportCsvOptions,
    fields: Map<Seq<char>, FieldView>,
    csv: Seq<char>,
) -> bool {
    &&& path_text(options.csv_path) == csv
    &&& opt_view(options.label) == given_text(fields, "label"@)
    &&& options.batch_size == 1000
    &&& options.progress_interval == 0
}

/// The import of a table that a request asks for, or why there is none.
pub fn api_import_csv(db_path: std::path::PathBuf, fields: &Table<Field>) -> (r: Result<
    ImportCsvOptions,
    &'static str,
>)
    ensures
        match (r, given_text(field_views(fields@), "csv"@)) {
            (Ok(options), Some(csv)) => {
                &&& options.db_path == db_path
                &&& path_text(options.csv_path) == csv
                &&& opt_view(options.label) == given_text(field_views(fields@), "label"@)
                &&& options.batch_size == 1000
                &&& options.progress_interval == 0
                &&& is_csv_request(options, field_views(fields@), csv)
            },
            (Err(message), None) => message@ == "CSV path is required"@,
            _ => false,
        },
{
    let csv = match non_empty_string(fields, "csv") {
        Some(csv) => csv,
        None => {
            return Err("CSV path is required");
        },
    };
    let mut options = ImportCsvOptions::new(db_path, path_from(csv));
    options.label = non_empty_string(fields, "label");
    options.progress_interval = 0;
    Ok(options)
}

/// Each method and path asks for what it names, and nothing else does.
pub proof fn routes_are_what_they_name(method: Seq<char>, path: Seq<char>)
    ensures
        route_of(method, path) == Route::Page <==> method == "GET"@ && path == "/"@,
        route_of(method, path) == Route::Runs <==> method == "GET"@ && path == "/api/runs"@,
        route_of(method, path) == Route::Summary <==> method == "GET"@ && path == "/api/summary"@,
        route_of(method, path) == Route::Calls <==> method == "GET"@ && path == "/api/calls"@,
        route_of(method, path) == Route::CallContext <==> method == "GET"@ && path == "/api/call-context"@,
        route_of(method, path) == Route::SummaryCsv <==> method == "GET"@ && path == "/download/summary.csv"@,
        route_of(method, path) == Route::CallsCsv <==> method == "GET"@ && path == "/download/calls.csv"@,
        route_of(method, path) == Route::ImportTrace <==> method == "POST"@ && path == "/api/import-trace"@,
        route_of(method, path) == Route::ImportCsv <==> method == "POST"@ && path == "/api/import-csv"@,
        route_of(method, path) == Route::DeleteRun <==> method == "POST"@ && path == "/api/delete-run"@,
        route_of(method, path) == Route::Nothing <==> !(method == "GET"@ && (path == "/"@ || path
            == "/api/runs"@ || path == "/api/summary"@ || path == "/api/calls"@ || path
            == "/api/call-context"@ || path == "/download/summary.csv"@ || path
            == "/download/calls.csv"@)) && !(method == "POST"@ && (path == "/api/import-trace"@ || path
            == "/api/import-csv"@ || path == "/api/delete-run"@)),
{
    reveal_strlit("/");
    reveal_strlit("/api/call-context");
    reveal_strlit("/api/calls");
    reveal_strlit("/api/delete-run");
    reveal_strlit("/api/import-csv");
    reveal_strlit("/api/import-trace");
    reveal_strlit("/api/runs");
    reveal_strlit("/api/summary");
    reveal_strlit("/download/calls.csv");
    reveal_strlit("/download/summary.csv");
    reveal_strlit("GET");
    reveal_strlit("POST");
    assert("/"@.len() == 1);
    assert("/api/call-context"@.len() == 17);
    assert("/api/calls"@.len() == 10);
    assert("/api/delete-run"@.len() == 15);
    assert("/api/import-csv"@.len() == 15);
    assert("/api/import-trace"@.len() == 17);
    assert("/api/runs"@.len() == 9);
    assert("/api/summary"@.len() == 12);
    assert("/download/calls.csv"@.len() == 19);
    assert("/download/summary.csv"@.len() == 21);
    assert("GET"@.len() == 3);
    assert("POST"@.len() == 4);
    assert("/api/call-context"@[5] == 'c');
    assert("/api/import-trace"@[5] == 'i');
    assert("/api/delete-run"@[5] == 'd');
    assert("/api/import-csv"@[5] == 'i');
}

/// What a parameter says, unless it is missing or empty.
pub open spec fn said_by(params: Map<Seq<char>, Seq<char>>, name: Seq<char>) -> Option<Seq<char>> {
    if params.contains_key(name) && params[name].len() > 0 {
        Some(params[name])
    } else {
        None
    }
}

/// The number that a parameter is, or another where it is none, but no less and no
/// more than asked for.
pub open spec fn number_within(
    params: Map<Seq<char>, Seq<char>>,
    name: Seq<char>,
    default: i64,
    least: i64,
    most: i64,
) -> i64 {
    let n: i64 = if params.contains_key(name) && i64_value(params[name]) is Some {
        i64_value(params[name])->0
    } else {
        default
    };
    if n < least {
        least
    } else if n > most {
        most
    } else {
        n
    }
}

/// A request for operations asks for those whose names hold what `q` says, in the
/// order of the key that `sort` is, or of the device times, and for no more than
/// `limit` says, which is between one and a thousand, and a hundred where it is
/// missing. As a table, all of them are asked for, in the order of their first calls.
pub proof fn requests_for_operations_say_what_is_read(
    run_id: i64,
    params: Map<Seq<char>, Seq<char>>,
)
    ensures
        summary_asked(run_id, params) == summary_statement(
            run_id,
            said_by(params, "q"@),
            sort_of_key(
                if params.contains_key("sort"@) {
                    params["sort"@]
                } else {
                    "device"@
                },
            ),
            number_within(params, "limit"@, 100, 1, 1000),
        ),
        summary_table_asked(run_id, params) == summary_statement(
            run_id,
            said_by(params, "q"@),
            sort_of_key("first"@),
            10_000_000,
        ),
{
}

/// A request for calls asks for those whose names hold what `q` says, that are of the
/// operation that `op` names, and that have the number that `call_order` is. They are
/// read from the place that `offset` is on, and no more than `limit` says, which is
/// between one and a thousand, and two hundred where it is missing. As a table, all
/// calls of the run are asked for, up to a million, or to as many as `limit` says.
pub proof fn requests_for_calls_say_what_is_read(run_id: i64, params: Map<Seq<char>, Seq<char>>)
    ensures
        calls_asked(run_id, params) == calls_statement(
            run_id,
            said_by(params, "q"@),
            said_by(params, "op"@),
            if params.contains_key("call_order"@) {
                i64_value(params["call_order"@])
            } else {
                None
            },
            number_within(params, "limit"@, 200, 1, 1000),
            number_within(params, "offset"@, 0, 0, i64::MAX),
        ),
        calls_table_asked(run_id, params) == calls_statement(
            run_id,
            None,
            None,
            None,
            number_within(params, "limit"@, 1_000_000, 1, 10_000_000),
            0,
        ),
{
}

/// A request for the calls around a call needs the number of a call. They are read up
/// to as far from it as `radius` says, which is between one and fifty, and five where
/// it is missing.
pub proof fn requests_for_a_context_need_a_call(run_id: i64, params: Map<Seq<char>, Seq<char>>)
    ensures
        ({
            let order = number_within(params, "call_order"@, 0, i64::MIN, i64::MAX);
            let reach = number_within(params, "radius"@, 5, 1, 50);
            match context_asked(run_id, params) {
                ContextAnswerView::Ask { call_order, radius, statement } => {
                    &&& order > 0
                    &&& order + reach <= i64::MAX
                    &&& call_order == order && radius == reach
                    &&& statement == call_context_statement(run_id, order, reach)
                },
                ContextAnswerView::Refused(answer) => {
                    &&& order <= 0
                    &&& answer == refusal(400, "call_order is required"@)
                },
                ContextAnswerView::OutOfRange => order > 0 && order + reach > i64::MAX,
            }
        }),
{
}

/// A request is about the run that `run_id` names, or the latest where it names none.
pub proof fn requests_name_their_run(params: Map<Seq<char>, Seq<char>>)
    ensures
        said_by(params, "run_id"@) is None <==> chosen_run(params) == RunChoice::Latest,
        said_by(params, "run_id"@) is Some ==> chosen_run(params) == (match i64_value(
            params["run_id"@],
        ) {
            Some(run_id) => RunChoice::Given(run_id),
            None => RunChoice::Invalid,
        }),
{
}

/// What a text of the body of a request says, without the space around it, unless
/// nothing is left.
pub open spec fn text_in(fields: Map<Seq<char>, FieldView>, name: Seq<char>) -> Option<Seq<char>> {
    if fields.contains_key(name) && fields[name] is Text && trimmed(fields[name]->Text_0).len()
        > 0 {
        Some(trimmed(fields[name]->Text_0))
    } else {
        None
    }
}

/// An import of a trace takes from the body of its request, each under its own name,
/// the path, the label, the categories, whether all are wanted, the patterns of the
/// names, and how long a call is at least. Kernels are wanted where no categories are
/// named, and every call is long enough where nothing is said.
pub proof fn imports_of_traces_are_what_is_asked(
    options: ImportTraceOptions,
    fields: Map<Seq<char>, FieldView>,
    trace: Seq<char>,
)
    requires
        given_text(fields, "trace"@) == Some(trace),
        is_trace_request(options, fields, trace),
    ensures
        Some(path_text(options.trace_path)) == text_in(fields, "trace"@),
        opt_view(options.label) == text_in(fields, "label"@),
        opt_view(options.include_name) == text_in(fields, "include_name"@),
        opt_view(options.exclude_name) == text_in(fields, "exclude_name"@),
        text_in(fields, "categories"@) is Some ==> Some(options.categories@) == text_in(
            fields,
            "categories"@,
        ),
        text_in(fields, "categories"@) is None ==> options.categories@ == "kernel"@,
        options.all_categories <==> fields.contains_key("all_categories"@)
            && fields["all_categories"@] == FieldView::Bool(true),
        options.min_device_time_us == (if fields.contains_key("min_device_time_us"@)
            && fields["min_device_time_us"@] is Number
            && fields["min_device_time_us"@]->measure is Some {
            fields["min_device_time_us"@]->measure->0
        } else {
            Measure { bits: 0 }
        }),
{
}

/// An import of a table takes the path and the label from the body of its request,
/// each under its own name.
pub proof fn imports_of_tables_are_what_is_asked(
    options: ImportCsvOptions,
    fields: Map<Seq<char>, FieldView>,
    csv: Seq<char>,
)
    requires
        given_text(fields, "csv"@) == Some(csv),
        is_csv_request(options, fields, csv),
    ensures
        Some(path_text(options.csv_path)) == text_in(fields, "csv"@),
        opt_view(options.label) == text_in(fields, "label"@),
{
}

/// The run to be deleted is the one that the body of a request gives under its name.
pub proof fn deletions_are_what_is_asked(fields: Map<Seq<char>, FieldView>)
    ensures
        given_integer(fields, "run_id"@) == (if fields.contains_key("run_id"@)
            && fields["run_id"@] is Number && fields["run_id"@]->integer is Some {
            fields["run_id"@]->integer->0
        } else {
            0
        }),
{
}

} // verus!
