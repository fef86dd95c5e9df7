use std::path::PathBuf;

use gpu_trace_viewer::body::{flag, integer, non_empty_string, quantity, read_body, Field};
use gpu_trace_viewer::http::{
    csv_response, html_response, json_error, json_response, parse_request, parse_uri, read_request, request_body,
    response,
};
use gpu_trace_viewer::measure::Measure;
use gpu_trace_viewer::query::{SqlValue, Statement};
use gpu_trace_viewer::table::Table;
use gpu_trace_viewer::web::{
    api_call_context, api_calls, api_delete_run, api_import_csv, api_import_trace, api_summary, download_calls,
    download_summary, int_param, not_found, route, run_id, ContextAnswer, Route, RunChoice,
};

fn measure(value: f64) -> Measure {
    Measure { bits: value.to_bits() }
}

fn text(bytes: Vec<u8>) -> String {
    String::from_utf8(bytes).unwrap()
}

fn params(query: &str) -> Table<String> {
    parse_uri(&format!("/?{query}")).1
}

fn get(params: &Table<String>, key: &str) -> Option<String> {
    params.get(key).cloned()
}

#[test]
fn uris_have_a_path_and_parameters() {
    let (path, params) = parse_uri("/api/calls?run_id=3&q=a%20b+c&&flag&op=%E2%82%AC=x&q=last?");
    assert_eq!(path, "/api/calls");
    assert_eq!(get(&params, "run_id").as_deref(), Some("3"));
    assert_eq!(get(&params, "flag").as_deref(), Some(""));
    assert_eq!(get(&params, "op").as_deref(), Some("\u{20ac}=x"));
    assert_eq!(get(&params, "q").as_deref(), Some("last?"));
    assert_eq!(get(&params, "missing"), None);
    let (path, params) = parse_uri("/plain");
    assert_eq!(path, "/plain");
    assert!(params.entries.is_empty());
}

#[test]
fn parameters_are_decoded() {
    let params = params("a=%41%2b%2B&b=1+2&c=100%&d=%zz%4&e=%ff&%6B=v&f=%%41");
    assert_eq!(get(&params, "a").as_deref(), Some("A++"));
    assert_eq!(get(&params, "b").as_deref(), Some("1+2"));
    assert_eq!(get(&params, "c").as_deref(), Some("100%"));
    assert_eq!(get(&params, "d").as_deref(), Some("%zz%4"));
    assert_eq!(get(&params, "e").as_deref(), Some(""));
    assert_eq!(get(&params, "k").as_deref(), Some("v"));
    assert_eq!(get(&params, "f").as_deref(), Some("%A"));
}

#[test]
fn encoded_texts_come_back() {
    for text in ["", "plain", "a&b=c?d%e+f g", "\u{20ac}\u{e9}\u{1f600}\0\r\n"] {
        let encoded: String = text.bytes().map(|byte| format!("%{byte:02X}")).collect();
        assert_eq!(get(&params(&format!("v={encoded}&w={encoded}")), "w").as_deref(), Some(text));
        assert_eq!(get(&params(&format!("{encoded}=x")), text).as_deref(), Some("x"));
    }
}

#[test]
fn requests_are_read_line_by_line() {
    let request = parse_request("GET /api/runs?x=1 HTTP/1.1\r\nHost: here\r\n\r\nbody\r\n\r\nmore").unwrap();
    assert_eq!(request.method, "GET");
    assert_eq!(request.path, "/api/runs");
    assert_eq!(get(&request.params, "x").as_deref(), Some("1"));
    assert_eq!(request.body, "body\r\n\r\nmore");
    let request = parse_request("GET").unwrap();
    assert_eq!((request.method.as_str(), request.path.as_str()), ("GET", "/"));
    let request = parse_request("\nGET /x").unwrap();
    assert_eq!((request.method.as_str(), request.path.as_str()), ("", "/"));
    let request = parse_request("  POST \t /p \r\n").unwrap();
    assert_eq!((request.method.as_str(), request.path.as_str()), ("POST", "/p"));
    assert!(parse_request("").is_none());
}

#[test]
fn bytes_of_requests_need_not_be_text() {
    let request = read_request(b"GET /\xC3\xA9 HTTP/1.1\r\n\r\n\xFFx").unwrap();
    assert_eq!(request.path, "/\u{e9}");
    assert_eq!(request.body, "\u{fffd}x");
    assert!(read_request(b"").is_none());
}

#[test]
fn bodies_follow_the_first_blank_line() {
    assert_eq!(request_body("a\r\n\r\nb"), "b");
    assert_eq!(request_body("a\n\nb"), "");
    assert_eq!(request_body("\r\n\r\n"), "");
    assert_eq!(request_body("\r\r\n\r\n\r\nx"), "\r\nx");
    assert_eq!(request_body(""), "");
}

#[test]
fn responses_have_a_head_and_a_body() {
    assert_eq!(
        text(response(200, "text/plain", b"hello".to_vec(), None)),
        "HTTP/1.1 200 OK\r\nContent-Type: text/plain\r\nContent-Length: 5\r\nConnection: close\r\n\r\nhello"
    );
    assert_eq!(
        text(csv_response("calls.csv", b"a,b\n".to_vec())),
        "HTTP/1.1 200 OK\r\nContent-Type: text/csv; charset=utf-8\r\nContent-Length: 4\r\nConnection: close\r\n\
         Content-Disposition: attachment; filename=\"calls.csv\"\r\n\r\na,b\n"
    );
    assert_eq!(
        text(html_response("\u{e9}")),
        "HTTP/1.1 200 OK\r\nContent-Type: text/html; charset=utf-8\r\nContent-Length: 2\r\nConnection: close\r\n\r\n\u{e9}"
    );
    assert_eq!(
        text(json_response(b"{}".to_vec())),
        "HTTP/1.1 200 OK\r\nContent-Type: application/json; charset=utf-8\r\nContent-Length: 2\r\n\
         Connection: close\r\n\r\n{}"
    );
    let answer = text(response(500, "t", b"\r\n\r\n".to_vec(), None));
    assert!(answer.starts_with("HTTP/1.1 500 Internal Server Error\r\n"));
    assert_eq!(request_body(&answer), "\r\n\r\n");
    assert!(text(response(302, "t", Vec::new(), None)).starts_with("HTTP/1.1 302 OK\r\n"));
}

#[test]
fn refusals_say_why() {
    let answer = text(not_found());
    assert_eq!(
        answer,
        "HTTP/1.1 404 Not Found\r\nContent-Type: application/json; charset=utf-8\r\nContent-Length: 21\r\n\
         Connection: close\r\n\r\n{\"error\":\"not found\"}"
    );
    let answer = text(json_error(400, "a \"b\"\n\\"));
    assert!(answer.starts_with("HTTP/1.1 400 Bad Request\r\n"));
    assert_eq!(request_body(&answer), r#"{"error":"a \"b\"\n\\"}"#);
}

#[test]
fn routes_depend_on_method_and_path() {
    for (method, path, expected) in [
        ("GET", "/", Route::Page),
        ("GET", "/api/runs", Route::Runs),
        ("GET", "/api/summary", Route::Summary),
        ("GET", "/api/calls", Route::Calls),
        ("GET", "/api/call-context", Route::CallContext),
        ("GET", "/download/summary.csv", Route::SummaryCsv),
        ("GET", "/download/calls.csv", Route::CallsCsv),
        ("POST", "/api/import-trace", Route::ImportTrace),
        ("POST", "/api/import-csv", Route::ImportCsv),
        ("POST", "/api/delete-run", Route::DeleteRun),
        ("POST", "/api/runs", Route::Nothing),
        ("GET", "/api/delete-run", Route::Nothing),
        ("get", "/", Route::Nothing),
        ("", "/", Route::Nothing),
        ("GET", "/api/runs/", Route::Nothing),
    ] {
        assert_eq!(route(method, path), expected, "{method} {path}");
    }
}

#[test]
fn the_run_is_given_or_the_latest() {
    assert_eq!(run_id(&params("run_id=12")), RunChoice::Given(12));
    assert_eq!(run_id(&params("run_id=-1")), RunChoice::Given(-1));
    assert_eq!(run_id(&params("run_id=")), RunChoice::Latest);
    assert_eq!(run_id(&params("")), RunChoice::Latest);
    assert_eq!(run_id(&params("run_id=x")), RunChoice::Invalid);
}

#[test]
fn integers_of_parameters_have_defaults() {
    let params = params("a=5&b=x&c=");
    assert_eq!(int_param(&params, "a", 1), 5);
    assert_eq!(int_param(&params, "b", 1), 1);
    assert_eq!(int_param(&params, "c", 1), 1);
    assert_eq!(int_param(&params, "d", 1), 1);
}

fn ints(statement: &Statement) -> Vec<i64> {
    statement
        .params
        .iter()
        .filter_map(|value| match value {
            SqlValue::Integer(n) => Some(*n),
            _ => None,
        })
        .collect()
}

fn texts(statement: &Statement) -> Vec<String> {
    statement
        .params
        .iter()
        .filter_map(|value| match value {
            SqlValue::Text(s) => Some(s.clone()),
            _ => None,
        })
        .collect()
}

#[test]
fn summaries_are_asked_for_within_limits() {
    let statement = api_summary(3, &params(""));
    assert_eq!(ints(&statement), vec![3, 100]);
    assert!(statement.sql.ends_with(" ORDER BY total_device_time_us DESC LIMIT ?"));
    let statement = api_summary(3, &params("limit=5000&sort=first&q=gemm"));
    assert_eq!(ints(&statement), vec![3, 1000]);
    assert_eq!(texts(&statement), vec!["%gemm%"]);
    assert!(statement.sql.ends_with(" AND op_name LIKE ? ORDER BY first_call_order ASC LIMIT ?"));
    assert_eq!(ints(&api_summary(3, &params("limit=-5&q="))), vec![3, 1]);
    let statement = download_summary(3, &params("sort=free&limit=1&q=x"));
    assert_eq!(ints(&statement), vec![3, 10_000_000]);
    assert!(statement.sql.ends_with(" AND op_name LIKE ? ORDER BY first_call_order ASC LIMIT ?"));
}

#[test]
fn calls_are_asked_for_within_limits() {
    assert_eq!(ints(&api_calls(3, &params(""))), vec![3, 200, 0]);
    let statement = api_calls(3, &params("limit=0&offset=-4&call_order=9&q=a&op=b"));
    assert_eq!(ints(&statement), vec![3, 9, 1, 0]);
    assert_eq!(texts(&statement), vec!["%a%", "b"]);
    assert_eq!(ints(&api_calls(3, &params("offset=40&call_order=x&op="))), vec![3, 200, 40]);
    assert_eq!(ints(&download_calls(3, &params("q=a"))), vec![3, 1_000_000, 0]);
    assert_eq!(ints(&download_calls(3, &params("limit=99999999"))), vec![3, 10_000_000, 0]);
}

#[test]
fn contexts_need_the_number_of_a_call() {
    for query in ["", "call_order=0", "call_order=-7", "call_order=x"] {
        match api_call_context(3, &params(query)) {
            ContextAnswer::Refused(answer) => {
                let answer = text(answer);
                assert!(answer.starts_with("HTTP/1.1 400 Bad Request\r\n"));
                assert_eq!(request_body(&answer), r#"{"error":"call_order is required"}"#);
            }
            other => panic!("{other:?}"),
        }
    }
    match api_call_context(3, &params("call_order=20&radius=999")) {
        ContextAnswer::Ask { call_order, radius, statement } => {
            assert_eq!((call_order, radius), (20, 50));
            assert_eq!(ints(&statement), vec![3, 1, 70]);
        }
        other => panic!("{other:?}"),
    }
    match api_call_context(3, &params("call_order=20")) {
        ContextAnswer::Ask { radius, statement, .. } => {
            assert_eq!(radius, 5);
            assert_eq!(ints(&statement), vec![3, 15, 25]);
        }
        other => panic!("{other:?}"),
    }
    assert!(matches!(
        api_call_context(3, &params("call_order=9223372036854775807")),
        ContextAnswer::OutOfRange
    ));
}

#[test]
fn bodies_are_json_objects() {
    let fields = read_body(r#"{"a":" x ","b":true,"c":7,"d":2.5,"e":null,"f":[1],"g":{},"h":"  ","i":1e30,"c":8}"#);
    assert_eq!(non_empty_string(&fields, "a").as_deref(), Some("x"));
    assert_eq!(non_empty_string(&fields, "h"), None);
    assert_eq!(non_empty_string(&fields, "c"), None);
    assert_eq!(non_empty_string(&fields, "z"), None);
    assert!(flag(&fields, "b"));
    assert!(!flag(&fields, "a"));
    assert_eq!(integer(&fields, "c"), 8);
    assert_eq!(integer(&fields, "d"), 0);
    assert_eq!(integer(&fields, "i"), 0);
    assert_eq!(quantity(&fields, "d"), measure(2.5));
    assert_eq!(quantity(&fields, "c"), measure(8.0));
    assert_eq!(quantity(&fields, "a"), measure(0.0));
    assert!(matches!(fields.get("e"), Some(Field::Other)));
    assert!(matches!(fields.get("f"), Some(Field::Other)));
    assert!(matches!(fields.get("g"), Some(Field::Other)));
    for text in ["", "nonsense", "[1]", "3", "{"] {
        assert!(read_body(text).entries.is_empty());
    }
}

#[test]
fn runs_to_delete_have_a_number() {
    assert_eq!(api_delete_run(&read_body(r#"{"run_id": 5}"#)), Ok(5));
    for body in ["", "{}", r#"{"run_id": 0}"#, r#"{"run_id": -3}"#, r#"{"run_id": "5"}"#, r#"{"run_id": 5.5}"#] {
        let answer = text(api_delete_run(&read_body(body)).unwrap_err());
        assert!(answer.starts_with("HTTP/1.1 400 Bad Request\r\n"));
        assert_eq!(request_body(&answer), r#"{"error":"run_id is required"}"#);
    }
}

#[test]
fn imports_of_traces_are_asked_for() {
    let db = PathBuf::from("db.sqlite");
    let body = read_body(
        r#"{"trace":" /tmp/t.json ","label":"l","categories":"a,b","all_categories":true,
            "include_name":"x","exclude_name":" ","min_device_time_us":1.5}"#,
    );
    let options = api_import_trace(db.clone(), &body).unwrap();
    assert_eq!(options.db_path, db);
    assert_eq!(options.trace_path, PathBuf::from("/tmp/t.json"));
    assert_eq!(options.label.as_deref(), Some("l"));
    assert_eq!(options.categories, "a,b");
    assert!(options.all_categories);
    assert_eq!(options.include_name.as_deref(), Some("x"));
    assert_eq!(options.exclude_name, None);
    assert_eq!(options.min_device_time_us, measure(1.5));
    assert_eq!(options.batch_size, 1000);
    assert_eq!(options.progress_interval, 0);
    let options = api_import_trace(db.clone(), &read_body(r#"{"trace":"t","categories":""}"#)).unwrap();
    assert_eq!(options.categories, "kernel");
    assert!(!options.all_categories);
    assert_eq!(api_import_trace(db.clone(), &read_body(r#"{"trace":" "}"#)).unwrap_err(), "trace path is required");
    assert_eq!(api_import_trace(db, &read_body("")).unwrap_err(), "trace path is required");
}

#[test]
fn imports_of_tables_are_asked_for() {
    let db = PathBuf::from("db.sqlite");
    let options = api_import_csv(db.clone(), &read_body(r#"{"csv":"c.csv ","label":""}"#)).unwrap();
    assert_eq!(options.db_path, db);
    assert_eq!(options.csv_path, PathBuf::from("c.csv"));
    assert_eq!(options.label, None);
    assert_eq!(options.progress_interval, 0);
    assert_eq!(api_import_csv(db, &read_body(r#"{"trace":"t"}"#)).unwrap_err(), "CSV path is required");
}
