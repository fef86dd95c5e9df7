//! Files: where they are looked for, and what a run says of the one it comes
//! from.
use vstd::prelude::*;

use crate::category::{category_list, category_text, CategorySet};
use crate::importer::{ImportCsvOptions, ImportTraceOptions};
use crate::measure::Measure;
use crate::query::NewRun;
use crate::text::{chars_of, join_texts, opt_view, same_text, text_between};

verus! {

/// The name of the database.
pub const DB_NAME: &'static str = "gpu_trace_stats.sqlite";

/// The name of the database one directory up.
pub const PARENT_DB_NAME: &'static str = "../gpu_trace_stats.sqlite";

/// The database where none is named, given whether there is one here and whether
/// there is one a directory up.
pub fn default_db_path(here: bool, above: bool) -> (r: &'static str)
    ensures
        r@ == if !here && above {
            PARENT_DB_NAME@
        } else {
            DB_NAME@
        },
{
    if here {
        return DB_NAME;
    }
    if above {
        return PARENT_DB_NAME;
    }
    DB_NAME
}

/// Which file a path stands for.
#[derive(Debug)]
pub enum Expansion {
    /// The one that it names.
    Same,
    /// The home directory.
    Home,
    /// One under the home directory.
    UnderHome(String),
}

/// What the file is that a path stands for.
pub enum ExpansionView {
    Same,
    Home,
    UnderHome(Seq<char>),
}

impl View for Expansion {
    type V = ExpansionView;

    open spec fn view(&self) -> ExpansionView {
        match *self {
            Expansion::Same => ExpansionView::Same,
            Expansion::Home => ExpansionView::Home,
            Expansion::UnderHome(rest) => ExpansionView::UnderHome(rest@),
        }
    }
}

/// Which file a path stands for. A tilde, alone or before a slash, is the home
/// directory where there is one.
pub open spec fn expanded(raw: Seq<char>, has_home: bool) -> ExpansionView {
    if !has_home || raw.len() == 0 || raw[0] != '~' {
        ExpansionView::Same
    } else if raw.len() == 1 {
        ExpansionView::Home
    } else if raw[1] == '/' {
        ExpansionView::UnderHome(raw.skip(2))
    } else {
        ExpansionView::Same
    }
}

/// Which file a path stands for.
pub fn expand_user(raw: &str, has_home: bool) -> (r: Expansion)
    ensures
        r@ == expanded(raw@, has_home),
{
    let chars = chars_of(raw);
    if !has_home || chars.len() == 0 || chars[0] != '~' {
        return Expansion::Same;
    }
    if chars.len() == 1 {
        return Expansion::Home;
    }
    if chars[1] != '/' {
        return Expansion::Same;
    }
    let rest = text_between(&chars, 2, chars.len());
    assert(rest@ =~= raw@.skip(2));
    Expansion::UnderHome(rest)
}

/// Whether a trace is compressed, by the extension of its file.
pub fn is_gzip(extension: Option<&str>) -> (r: bool)
    ensures
        r == (extension is Some && extension->0@ == "gz"@),
{
    match extension {
        Some(extension) => same_text(extension, "gz"),
        None => false,
    }
}

/// The size of a file that the database can hold.
pub fn source_size(len: Option<u64>) -> (r: Option<i64>)
    ensures
        match len {
            Some(len) => if len <= i64::MAX {
                r == Some(len as i64)
            } else {
                r is None
            },
            None => r is None,
        },
{
    match len {
        Some(len) => if len <= 0x7FFF_FFFF_FFFF_FFFF {
            Some(len as i64)
        } else {
            None
        },
        None => None,
    }
}

/// What is said of a trace that is not there.
pub fn missing_trace(path: &str) -> (r: String)
    ensures
        r@ == "trace file not found: "@ + path@,
{
    let mut message = "trace file not found: ".to_owned();
    message.append(path);
    message
}

/// What is said of a table that is not there.
pub fn missing_csv(path: &str) -> (r: String)
    ensures
        r@ == "CSV file not found: "@ + path@,
{
    let mut message = "CSV file not found: ".to_owned();
    message.append(path);
    message
}

/// A file that is imported, and when, by what.
#[derive(Debug)]
pub struct Source {
    pub path: String,
    pub size_bytes: Option<i64>,
    pub imported_at: String,
    pub app_version: String,
}

/// Whether a run says of its source what is known of it.
pub open spec fn is_from(run: NewRun, source: Source) -> bool {
    &&& run.source_path@ == source.path@
    &&& run.source_size_bytes == source.size_bytes
    &&& run.imported_at@ == source.imported_at@
    &&& run.app_version@ == source.app_version@
}

fn copy(s: &Option<String>) -> (r: Option<String>)
    ensures
        opt_view(r) == opt_view(*s),
{
    match s {
        Some(s) => Some(s.clone()),
        None => None,
    }
}

/// Whether a run is that of a trace.
pub open spec fn is_trace_run(
    run: NewRun,
    options: ImportTraceOptions,
    categories: Option<CategorySet>,
    source: Source,
) -> bool {
    &&& is_from(run, source)
    &&& opt_view(run.label) == opt_view(options.label)
    &&& run.source_type@ == "trace"@
    &&& run.categories@ == category_list(categories)
    &&& opt_view(run.include_name) == opt_view(options.include_name)
    &&& opt_view(run.exclude_name) == opt_view(options.exclude_name)
    &&& run.min_device_time_us == options.min_device_time_us
}

/// The run of a trace.
pub fn trace_run(
    options: &ImportTraceOptions,
    categories: &Option<CategorySet>,
    source: Source,
) -> (r: NewRun)
    ensures
        is_from(r, source),
        opt_view(r.label) == opt_view(options.label),
        r.source_type@ == "trace"@,
        r.categories@ == category_list(*categories),
        opt_view(r.include_name) == opt_view(options.include_name),
        opt_view(r.exclude_name) == opt_view(options.exclude_name),
        r.min_device_time_us == options.min_device_time_us,
        is_trace_run(r, *options, *categories, source),
{
    NewRun {
        label: copy(&options.label),
        source_type: "trace".to_owned(),
        source_path: source.path,
        source_size_bytes: source.size_bytes,
        imported_at: source.imported_at,
        app_version: source.app_version,
        categories: category_text(categories),
        include_name: copy(&options.include_name),
        exclude_name: copy(&options.exclude_name),
        min_device_time_us: options.min_device_time_us,
    }
}

/// Whether a run is that of a table of calls.
pub open spec fn is_csv_run(run: NewRun, options: ImportCsvOptions, source: Source) -> bool {
    &&& is_from(run, source)
    &&& opt_view(run.label) == opt_view(options.label)
    &&& run.source_type@ == "calls_csv"@
    &&& run.categories@ == "from_csv"@
    &&& run.include_name is None
    &&& run.exclude_name is None
    &&& run.min_device_time_us == (Measure { bits: 0 })
}

/// The run of a table of calls.
pub fn csv_run(options: &ImportCsvOptions, source: Source) -> (r: NewRun)
    ensures
        is_from(r, source),
        opt_view(r.label) == opt_view(options.label),
        r.source_type@ == "calls_csv"@,
        r.categories@ == "from_csv"@,
        r.include_name is None,
        r.exclude_name is None,
        r.min_device_time_us == (Measure { bits: 0 }),
        is_csv_run(r, *options, source),
{
    NewRun {
        label: copy(&options.label),
        source_type: "calls_csv".to_owned(),
        source_path: source.path,
        source_size_bytes: source.size_bytes,
        imported_at: source.imported_at,
        app_version: source.app_version,
        categories: "from_csv".to_owned(),
        include_name: None,
        exclude_name: None,
        min_device_time_us: Measure::zero(),
    }
}

/// A path that begins with a tilde, alone or before a slash, is at home, where there is
/// one, and any other is where it says.
pub proof fn tildes_stand_for_home(rest: Seq<char>, raw: Seq<char>)
    ensures
        expanded(seq!['~'], true) == ExpansionView::Home,
        expanded(seq!['~', '/'] + rest, true) == ExpansionView::UnderHome(rest),
        expanded(raw, false) == ExpansionView::Same,
        raw.len() == 0 || raw[0] != '~' ==> expanded(raw, true) == ExpansionView::Same,
        raw.len() > 1 && raw[1] != '/' ==> expanded(raw, true) == ExpansionView::Same,
{
    assert((seq!['~', '/'] + rest).skip(2) =~= rest);
}

/// The database one directory up has the name of the one that is here.
pub proof fn databases_have_one_name()
    ensures
        DB_NAME@ == "gpu_trace_stats.sqlite"@,
        PARENT_DB_NAME@ == "../"@ + DB_NAME@,
{
    reveal_strlit("gpu_trace_stats.sqlite");
    reveal_strlit("../gpu_trace_stats.sqlite");
    reveal_strlit("../");
    assert(PARENT_DB_NAME@ =~= "../"@ + DB_NAME@);
}

/// The run of a trace says of the file where it is, how large it was, when it was
/// imported and by what, and repeats what was asked for: the label, the patterns of
/// the names, and how long a call is at least.
pub proof fn runs_of_traces_say_what_was_asked(
    run: NewRun,
    options: ImportTraceOptions,
    categories: Option<CategorySet>,
    source: Source,
)
    requires
        is_trace_run(run, options, categories, source),
    ensures
        run.source_path@ == source.path@,
        run.source_size_bytes == source.size_bytes,
        run.imported_at@ == source.imported_at@,
        run.app_version@ == source.app_version@,
        run.source_type@ == "trace"@,
        run.label is Some <==> options.label is Some,
        run.label is Some ==> run.label->0@ == options.label->0@,
        run.include_name is Some <==> options.include_name is Some,
        run.include_name is Some ==> run.include_name->0@ == options.include_name->0@,
        run.exclude_name is Some <==> options.exclude_name is Some,
        run.exclude_name is Some ==> run.exclude_name->0@ == options.exclude_name->0@,
        run.min_device_time_us == options.min_device_time_us,
        categories is None ==> run.categories@ == "*"@,
        categories is Some ==> run.categories@ == join_texts(categories->0@, ","@),
{
}

/// The run of a table says of the file where it is, how large it was, when it was
/// imported and by what, and has the label that was asked for. Its categories are those
/// of the table, and no call of it was left out.
pub proof fn runs_of_tables_say_what_was_asked(
    run: NewRun,
    options: ImportCsvOptions,
    source: Source,
)
    requires
        is_csv_run(run, options, source),
    ensures
        run.source_path@ == source.path@,
        run.source_size_bytes == source.size_bytes,
        run.imported_at@ == source.imported_at@,
        run.app_version@ == source.app_version@,
        run.source_type@ == "calls_csv"@,
        run.categories@ == "from_csv"@,
        run.label is Some <==> options.label is Some,
        run.label is Some ==> run.label->0@ == options.label->0@,
        run.include_name is None && run.exclude_name is None,
        run.min_device_time_us.bits == 0,
{
}

} // verus!
