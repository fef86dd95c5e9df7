//! The rows of the database, and the statements that read and change it.
use vstd::prelude::*;

use crate::measure::Measure;
use crate::text::{same_text, views};

verus! {

/// The tables and indexes of the database.
pub const SCHEMA: &'static str = r#"
PRAGMA foreign_keys = ON;
CREATE TABLE IF NOT EXISTS runs (
    id INTEGER PRIMARY KEY AUTOINCREMENT,
    label TEXT,
    source_type TEXT NOT NULL,
    source_path TEXT NOT NULL,
    source_size_bytes INTEGER,
    imported_at TEXT NOT NULL,
    app_version TEXT NOT NULL,
    categories TEXT NOT NULL,
    include_name TEXT,
    exclude_name TEXT,
    min_device_time_us REAL NOT NULL DEFAULT 0,
    total_calls INTEGER NOT NULL DEFAULT 0,
    unique_ops INTEGER NOT NULL DEFAULT 0
);
CREATE TABLE IF NOT EXISTS gpu_calls (
    run_id INTEGER NOT NULL,
    call_order INTEGER NOT NULL,
    op_call_index INTEGER NOT NULL,
    category TEXT NOT NULL,
    op_name TEXT NOT NULL,
    device_time_us REAL NOT NULL,
    occupancy_pct REAL,
    blocks_per_sm REAL,
    warps_per_sm REAL,
    shared_memory REAL,
    grid TEXT,
    block TEXT,
    free_time_us REAL NOT NULL,
    total_time_us REAL NOT NULL,
    start_ts_us REAL,
    end_ts_us REAL,
    device TEXT,
    stream TEXT,
    pid TEXT,
    tid TEXT,
    correlation TEXT,
    external_id TEXT,
    PRIMARY KEY (run_id, call_order),
    FOREIGN KEY (run_id) REFERENCES runs(id) ON DELETE CASCADE
);
CREATE TABLE IF NOT EXISTS op_summary (
    run_id INTEGER NOT NULL,
    first_call_order INTEGER NOT NULL,
    category TEXT NOT NULL,
    op_name TEXT NOT NULL,
    call_count INTEGER NOT NULL,
    total_device_time_us REAL NOT NULL,
    total_free_time_us REAL NOT NULL,
    total_time_us REAL NOT NULL,
    avg_device_time_us REAL NOT NULL,
    avg_free_time_us REAL NOT NULL,
    avg_time_us REAL NOT NULL,
    avg_occupancy_pct REAL,
    min_occupancy_pct REAL,
    max_occupancy_pct REAL,
    min_device_time_us REAL NOT NULL,
    min_free_time_us REAL NOT NULL,
    min_time_us REAL NOT NULL,
    max_device_time_us REAL NOT NULL,
    max_free_time_us REAL NOT NULL,
    max_time_us REAL NOT NULL,
    PRIMARY KEY (run_id, category, op_name),
    FOREIGN KEY (run_id) REFERENCES runs(id) ON DELETE CASCADE
);
CREATE INDEX IF NOT EXISTS idx_calls_run_name ON gpu_calls(run_id, op_name);
CREATE INDEX IF NOT EXISTS idx_calls_run_device_stream ON gpu_calls(run_id, device, stream, call_order);
CREATE INDEX IF NOT EXISTS idx_calls_run_time ON gpu_calls(run_id, start_ts_us);
CREATE INDEX IF NOT EXISTS idx_summary_run_device ON op_summary(run_id, total_device_time_us DESC);
CREATE INDEX IF NOT EXISTS idx_summary_run_free ON op_summary(run_id, total_free_time_us DESC);
CREATE INDEX IF NOT EXISTS idx_summary_run_total ON op_summary(run_id, total_time_us DESC);
CREATE INDEX IF NOT EXISTS idx_summary_run_count ON op_summary(run_id, call_count DESC);
"#;

/// What opens a connection for reading.
pub const READ_ONLY: &'static str = "PRAGMA query_only = ON; PRAGMA foreign_keys = ON;";

/// What makes an import faster.
pub const TUNE_FOR_IMPORT: &'static str =
    "PRAGMA journal_mode = WAL; PRAGMA synchronous = NORMAL; PRAGMA temp_store = MEMORY;";

/// The runs, the newest first.
pub const RUNS: &'static str =
    "SELECT id, label, source_type, source_path, imported_at, total_calls, unique_ops FROM runs ORDER BY id DESC";

/// The newest run.
pub const LATEST_RUN: &'static str = "SELECT id FROM runs ORDER BY id DESC LIMIT 1";

/// One imported trace.
#[derive(Clone, Debug)]
pub struct RunRow {
    pub id: i64,
    pub label: Option<String>,
    pub source_type: String,
    pub source_path: String,
    pub imported_at: String,
    pub total_calls: i64,
    pub unique_ops: i64,
}

/// The sums over all operations of a run.
#[derive(Clone, Copy, Debug)]
pub struct TotalsRow {
    pub unique_ops: i64,
    pub call_count: i64,
    pub total_device_time_us: Measure,
    pub total_free_time_us: Measure,
    pub total_time_us: Measure,
    pub avg_occupancy_pct: Option<Measure>,
}

/// The calls of one operation, taken together.
#[derive(Clone, Debug)]
pub struct SummaryRow {
    pub run_id: i64,
    pub first_call_order: i64,
    pub category: String,
    pub op_name: String,
    pub call_count: i64,
    pub total_device_time_us: Measure,
    pub total_free_time_us: Measure,
    pub total_time_us: Measure,
    pub avg_device_time_us: Measure,
    pub avg_free_time_us: Measure,
    pub avg_time_us: Measure,
    pub avg_occupancy_pct: Option<Measure>,
    pub min_occupancy_pct: Option<Measure>,
    pub max_occupancy_pct: Option<Measure>,
    pub min_device_time_us: Measure,
    pub min_free_time_us: Measure,
    pub min_time_us: Measure,
    pub max_device_time_us: Measure,
    pub max_free_time_us: Measure,
    pub max_time_us: Measure,
}

/// One call.
#[derive(Clone, Debug)]
pub struct CallRow {
    pub run_id: i64,
    pub call_order: i64,
    pub op_call_index: i64,
    pub category: String,
    pub op_name: String,
    pub device_time_us: Measure,
    pub occupancy_pct: Option<Measure>,
    pub blocks_per_sm: Option<Measure>,
    pub warps_per_sm: Option<Measure>,
    pub shared_memory: Option<Measure>,
    pub grid: Option<String>,
    pub block: Option<String>,
    pub free_time_us: Measure,
    pub total_time_us: Measure,
    pub start_ts_us: Option<Measure>,
    pub end_ts_us: Option<Measure>,
    pub device: Option<String>,
    pub stream: Option<String>,
    pub pid: Option<String>,
    pub tid: Option<String>,
    pub correlation: Option<String>,
    pub external_id: Option<String>,
}

/// The device times of a selection of calls.
#[derive(Clone, Copy, Debug)]
pub struct CallStats {
    pub count: i64,
    pub total: Measure,
    pub min: Option<Measure>,
    pub mean: Option<Measure>,
    pub max: Option<Measure>,
    pub p50: Option<Measure>,
    pub p75: Option<Measure>,
    pub p95: Option<Measure>,
    pub p99: Option<Measure>,
    pub p999: Option<Measure>,
}

/// The sums of a run without operations.
pub open spec fn no_totals() -> TotalsRow {
    TotalsRow {
        unique_ops: 0,
        call_count: 0,
        total_device_time_us: Measure { bits: 0 },
        total_free_time_us: Measure { bits: 0 },
        total_time_us: Measure { bits: 0 },
        avg_occupancy_pct: None,
    }
}

impl Default for TotalsRow {
    fn default() -> (r: TotalsRow)
        ensures
            r == no_totals(),
    {
        TotalsRow {
            unique_ops: 0,
            call_count: 0,
            total_device_time_us: Measure::zero(),
            total_free_time_us: Measure::zero(),
            total_time_us: Measure::zero(),
            avg_occupancy_pct: None,
        }
    }
}

/// The statistics of no calls.
pub open spec fn no_stats() -> CallStats {
    CallStats {
        count: 0,
        total: Measure { bits: 0 },
        min: None,
        mean: None,
        max: None,
        p50: None,
        p75: None,
        p95: None,
        p99: None,
        p999: None,
    }
}

impl Default for CallStats {
    fn default() -> (r: CallStats)
        ensures
            r == no_stats(),
    {
        CallStats {
            count: 0,
            total: Measure::zero(),
            min: None,
            mean: None,
            max: None,
            p50: None,
            p75: None,
            p95: None,
            p99: None,
            p999: None,
        }
    }
}

/// Where a percentile falls among sorted values: at or between two of them,
/// and what lies there where they are not the same.
#[derive(Clone, Copy, Debug)]
pub struct Bracket {
    pub lower: usize,
    pub upper: usize,
    pub between: Measure,
}

/// The value at a percentile.
pub open spec fn percentile_value(sorted: Seq<Measure>, at: Bracket) -> Option<Measure> {
    if sorted.len() == 0 {
        None
    } else if sorted.len() == 1 {
        Some(sorted[0])
    } else if at.lower == at.upper {
        Some(sorted[at.lower as int])
    } else {
        Some(at.between)
    }
}

/// The value at a percentile.
pub fn percentile(sorted: &Vec<Measure>, at: Bracket) -> (r: Option<Measure>)
    requires
        sorted@.len() > 1 ==> at.lower < sorted@.len(),
    ensures
        r == percentile_value(sorted@, at),
{
    if sorted.len() == 0 {
        None
    } else if sorted.len() == 1 {
        Some(sorted[0])
    } else if at.lower == at.upper {
        Some(sorted[at.lower])
    } else {
        Some(at.between)
    }
}

/// What arithmetic says of a selection of device times.
#[derive(Clone, Copy, Debug)]
pub struct Figures {
    pub total: Measure,
    pub mean: Measure,
    pub p50: Bracket,
    pub p75: Bracket,
    pub p95: Bracket,
    pub p99: Bracket,
    pub p999: Bracket,
}

impl Figures {
    /// Whether each percentile falls on a value, where there is more than one.
    pub open spec fn fits(self, count: nat) -> bool {
        count > 1 ==> {
            &&& self.p50.lower < count
            &&& self.p75.lower < count
            &&& self.p95.lower < count
            &&& self.p99.lower < count
            &&& self.p999.lower < count
        }
    }
}

/// The statistics of device times that go from the shortest to the longest.
pub open spec fn stats_of(values: Seq<Measure>, figures: Figures) -> CallStats {
    if values.len() == 0 {
        no_stats()
    } else {
        CallStats {
            count: values.len() as i64,
            total: figures.total,
            min: Some(values[0]),
            mean: Some(figures.mean),
            max: Some(values.last()),
            p50: percentile_value(values, figures.p50),
            p75: percentile_value(values, figures.p75),
            p95: percentile_value(values, figures.p95),
            p99: percentile_value(values, figures.p99),
            p999: percentile_value(values, figures.p999),
        }
    }
}

impl CallStats {
    /// The statistics of device times that go from the shortest to the longest.
    pub fn from_sorted_values(values: &Vec<Measure>, figures: &Figures) -> (r: CallStats)
        requires
            values@.len() <= i64::MAX,
            figures.fits(values@.len()),
        ensures
            r == stats_of(values@, *figures),
    {
        if values.len() == 0 {
            return CallStats::default();
        }
        CallStats {
            count: values.len() as i64,
            total: figures.total,
            min: Some(values[0]),
            mean: Some(figures.mean),
            max: Some(values[values.len() - 1]),
            p50: percentile(values, figures.p50),
            p75: percentile(values, figures.p75),
            p95: percentile(values, figures.p95),
            p99: percentile(values, figures.p99),
            p999: percentile(values, figures.p999),
        }
    }
}

/// Whether values go from the smallest to the largest, and all are numbers.
pub open spec fn is_sorted(values: Seq<Measure>) -> bool {
    &&& forall|i: int| 0 <= i < values.len() ==> !(#[trigger] values[i]).is_nan()
    &&& forall|i: int, j: int|
        0 <= i <= j < values.len() ==> (#[trigger] values[i]).rank() <= (
        #[trigger] values[j]).rank()
}

/// Whether a percentile, in thousandths, falls where it does among some values: with
/// as many parts of a thousand of the way from the first to the last before it. What
/// lies between two values is no smaller than the one and no larger than the other.
pub open spec fn falls_at(at: Bracket, thousandths: nat, values: Seq<Measure>) -> bool {
    let way = thousandths * (values.len() - 1);
    &&& at.lower == way / 1000
    &&& at.upper == (if way % 1000 == 0 {
        way / 1000
    } else {
        way / 1000 + 1
    })
    &&& !at.between.is_nan()
    &&& way % 1000 != 0 ==> values[at.lower as int].rank() <= at.between.rank()
        <= values[at.upper as int].rank()
}

/// Whether the figures of some values are theirs: each percentile falls where it does.
pub open spec fn are_figures_of(figures: Figures, values: Seq<Measure>) -> bool {
    &&& falls_at(figures.p50, 500, values)
    &&& falls_at(figures.p75, 750, values)
    &&& falls_at(figures.p95, 950, values)
    &&& falls_at(figures.p99, 990, values)
    &&& falls_at(figures.p999, 999, values)
}

/// Whether a value is the one at a percentile, in thousandths, of sorted values: the
/// value there, or what arithmetic gives between the two around it.
pub open spec fn is_at(
    value: Option<Measure>,
    thousandths: nat,
    values: Seq<Measure>,
    between: Measure,
) -> bool {
    let way = thousandths * (values.len() - 1);
    value == Some(
        if way % 1000 == 0 {
            values[way / 1000]
        } else {
            between
        },
    )
}

proof fn lemma_way(thousandths: nat, n: nat)
    requires
        thousandths < 1000,
        n > 1,
    ensures
        0 <= (thousandths * (n - 1)) / 1000 < n - 1,
        (thousandths * (n - 1)) % 1000 == 0 ==> (thousandths * (n - 1)) / 1000 < n,
{
    let way = thousandths * (n - 1);
    assert(way < 1000 * (n - 1) && way >= 0) by (nonlinear_arith)
        requires
            thousandths < 1000,
            n > 1,
            way == thousandths * (n - 1),
    ;
}

/// A percentile lies between two values around it, and one that is as far on as a
/// value is that value.
proof fn lemma_percentile(values: Seq<Measure>, at: Bracket, thousandths: nat)
    requires
        values.len() > 1,
        thousandths < 1000,
        is_sorted(values),
        falls_at(at, thousandths, values),
    ensures
        ({
            let place = (thousandths * (values.len() - 1)) / 1000;
            &&& 0 <= place < values.len() - 1
            &&& is_at(percentile_value(values, at), thousandths, values, at.between)
            &&& values[place].rank() <= percentile_value(values, at)->0.rank()
                <= values[place + 1].rank()
        }),
{
    lemma_way(thousandths, values.len());
}

/// The statistics of sorted device times are those of the times: how many there are,
/// the shortest and the longest of them, and each percentile at its own place among
/// them. One time is all of them, and no times have none. The first percentile is no
/// smaller than the shortest time, and the last one no larger than the longest.
pub proof fn statistics_are_of_the_times(values: Seq<Measure>, figures: Figures)
    requires
        is_sorted(values),
        values.len() <= i64::MAX,
        values.len() > 1 ==> are_figures_of(figures, values),
    ensures
        ({
            let stats = stats_of(values, figures);
            &&& stats.count == values.len()
            &&& values.len() == 0 ==> {
                &&& stats.total == (Measure { bits: 0 })
                &&& stats.min is None && stats.mean is None && stats.max is None
                &&& stats.p50 is None && stats.p75 is None && stats.p95 is None
                &&& stats.p99 is None && stats.p999 is None
            }
            &&& values.len() > 0 ==> {
                &&& stats.total == figures.total
                &&& stats.mean == Some(figures.mean)
                &&& stats.min is Some && values.contains(stats.min->0)
                &&& stats.max is Some && values.contains(stats.max->0)
                &&& forall|i: int|
                    0 <= i < values.len() ==> stats.min->0.rank() <= (#[trigger] values[i]).rank()
                        <= stats.max->0.rank()
            }
            &&& values.len() == 1 ==> {
                &&& stats.p50 == Some(values[0]) && stats.p75 == Some(values[0])
                &&& stats.p95 == Some(values[0]) && stats.p99 == Some(values[0])
                &&& stats.p999 == Some(values[0])
            }
            &&& values.len() > 1 ==> {
                &&& is_at(stats.p50, 500, values, figures.p50.between)
                &&& is_at(stats.p75, 750, values, figures.p75.between)
                &&& is_at(stats.p95, 950, values, figures.p95.between)
                &&& is_at(stats.p99, 990, values, figures.p99.between)
                &&& is_at(stats.p999, 999, values, figures.p999.between)
                &&& stats.min->0.rank() <= stats.p50->0.rank()
                &&& stats.p999->0.rank() <= stats.max->0.rank()
            }
        }),
{
    if values.len() > 0 {
        assert(values.contains(values[0]));
        assert(values.contains(values[values.len() - 1]));
    }
    if values.len() > 1 {
        lemma_percentile(values, figures.p50, 500);
        lemma_percentile(values, figures.p75, 750);
        lemma_percentile(values, figures.p95, 950);
        lemma_percentile(values, figures.p99, 990);
        lemma_percentile(values, figures.p999, 999);
    }
}

/// Each percentile of the statistics is that of its own figure, and of no other: where
/// two selections of figures have one percentile alike, the statistics have it alike.
/// It is the value that it falls on, or what arithmetic gives between two.
pub proof fn percentiles_are_their_own(
    values: Seq<Measure>,
    figures: Figures,
    other: Figures,
)
    requires
        values.len() > 1,
        figures.fits(values.len()),
        other.fits(values.len()),
    ensures
        ({
            let stats = stats_of(values, figures);
            let others = stats_of(values, other);
            &&& figures.p50 == other.p50 ==> stats.p50 == others.p50
            &&& figures.p75 == other.p75 ==> stats.p75 == others.p75
            &&& figures.p95 == other.p95 ==> stats.p95 == others.p95
            &&& figures.p99 == other.p99 ==> stats.p99 == others.p99
            &&& figures.p999 == other.p999 ==> stats.p999 == others.p999
            &&& figures.p50.lower == figures.p50.upper ==> stats.p50 == Some(
                values[figures.p50.lower as int],
            )
            &&& figures.p75.lower == figures.p75.upper ==> stats.p75 == Some(
                values[figures.p75.lower as int],
            )
            &&& figures.p95.lower == figures.p95.upper ==> stats.p95 == Some(
                values[figures.p95.lower as int],
            )
            &&& figures.p99.lower == figures.p99.upper ==> stats.p99 == Some(
                values[figures.p99.lower as int],
            )
            &&& figures.p999.lower == figures.p999.upper ==> stats.p999 == Some(
                values[figures.p999.lower as int],
            )
            &&& figures.p50.lower != figures.p50.upper ==> stats.p50 == Some(figures.p50.between)
            &&& figures.p75.lower != figures.p75.upper ==> stats.p75 == Some(figures.p75.between)
            &&& figures.p95.lower != figures.p95.upper ==> stats.p95 == Some(figures.p95.between)
            &&& figures.p99.lower != figures.p99.upper ==> stats.p99 == Some(figures.p99.between)
            &&& figures.p999.lower != figures.p999.upper ==> stats.p999 == Some(
                figures.p999.between,
            )
        }),
{
}

/// Whether one percentile falls no further on than another.
pub open spec fn falls_before(at: Bracket, next: Bracket) -> bool {
    &&& at.lower <= next.lower
    &&& at.upper <= next.lower || (at.lower == next.lower && at.upper == next.upper
        && at.between.rank() <= next.between.rank())
}

proof fn lemma_percentiles_go_up(
    values: Seq<Measure>,
    at: Bracket,
    thousandths: nat,
    next: Bracket,
    next_thousandths: nat,
)
    requires
        values.len() > 1,
        thousandths <= next_thousandths < 1000,
        is_sorted(values),
        falls_at(at, thousandths, values),
        falls_at(next, next_thousandths, values),
        falls_before(at, next),
    ensures
        percentile_value(values, at)->0.rank() <= percentile_value(values, next)->0.rank(),
{
    lemma_percentile(values, at, thousandths);
    lemma_percentile(values, next, next_thousandths);
}

/// The percentiles of the statistics go up, where their figures do.
pub proof fn percentiles_go_up(values: Seq<Measure>, figures: Figures)
    requires
        values.len() > 1,
        is_sorted(values),
        are_figures_of(figures, values),
        falls_before(figures.p50, figures.p75),
        falls_before(figures.p75, figures.p95),
        falls_before(figures.p95, figures.p99),
        falls_before(figures.p99, figures.p999),
    ensures
        ({
            let stats = stats_of(values, figures);
            stats.min->0.rank() <= stats.p50->0.rank() <= stats.p75->0.rank()
                <= stats.p95->0.rank() <= stats.p99->0.rank() <= stats.p999->0.rank()
                <= stats.max->0.rank()
        }),
{
    lemma_percentile(values, figures.p50, 500);
    lemma_percentiles_go_up(values, figures.p50, 500, figures.p75, 750);
    lemma_percentiles_go_up(values, figures.p75, 750, figures.p95, 950);
    lemma_percentiles_go_up(values, figures.p95, 950, figures.p99, 990);
    lemma_percentiles_go_up(values, figures.p99, 990, figures.p999, 999);
    lemma_percentile(values, figures.p999, 999);
}

/// A way to order the summary.
#[derive(Clone, Copy, Debug, PartialEq, Eq)]
pub struct SortSpec {
    pub key: &'static str,
    pub label: &'static str,
    pub column: &'static str,
    pub ascending: bool,
}

/// The ways to order the summary, in the order in which they are offered.
pub open spec fn all_sorts() -> Seq<SortSpec> {
    seq![
        SortSpec {
            key: "device",
            label: "Device total",
            column: "total_device_time_us",
            ascending: false,
        },
        SortSpec {
            key: "free",
            label: "Free total",
            column: "total_free_time_us",
            ascending: false,
        },
        SortSpec {
            key: "total",
            label: "Combined total",
            column: "total_time_us",
            ascending: false,
        },
        SortSpec {
            key: "count",
            label: "Call count",
            column: "call_count",
            ascending: false,
        },
        SortSpec {
            key: "avg_device",
            label: "Device avg",
            column: "avg_device_time_us",
            ascending: false,
        },
        SortSpec {
            key: "avg_free",
            label: "Free avg",
            column: "avg_free_time_us",
            ascending: false,
        },
        SortSpec {
            key: "occupancy",
            label: "Occupancy avg",
            column: "avg_occupancy_pct",
            ascending: false,
        },
        SortSpec {
            key: "first",
            label: "First call",
            column: "first_call_order",
            ascending: true,
        },
    ]
}

/// The place of the way to order that has a key.
pub open spec fn sort_index(key: Seq<char>) -> Option<int> {
    if key == "device"@ {
        Some(0)
    } else if key == "free"@ {
        Some(1)
    } else if key == "total"@ {
        Some(2)
    } else if key == "count"@ {
        Some(3)
    } else if key == "avg_device"@ {
        Some(4)
    } else if key == "avg_free"@ {
        Some(5)
    } else if key == "occupancy"@ {
        Some(6)
    } else if key == "first"@ {
        Some(7)
    } else {
        None
    }
}

/// The way to order that has a key, or the first one where none has it.
pub open spec fn sort_of_key(key: Seq<char>) -> SortSpec {
    match sort_index(key) {
        Some(i) => all_sorts()[i],
        None => all_sorts()[0],
    }
}

/// The way to order that follows the one of a key. The first one follows the
/// last, and the second one follows a key that none has.
pub open spec fn sort_after_key(key: Seq<char>) -> SortSpec {
    match sort_index(key) {
        Some(i) => all_sorts()[(i + 1) % 8],
        None => all_sorts()[1],
    }
}

/// The direction of an order.
pub open spec fn direction(ascending: bool) -> Seq<char> {
    if ascending {
        "ASC"@
    } else {
        "DESC"@
    }
}

impl SortSpec {
    /// A way to order.
    pub fn new(
        key: &'static str,
        label: &'static str,
        column: &'static str,
        ascending: bool,
    ) -> (r: SortSpec)
        ensures
            r == (SortSpec { key, label, column, ascending }),
    {
        SortSpec { key, label, column, ascending }
    }

    /// The ways to order the summary.
    pub fn all() -> (r: [SortSpec; 8])
        ensures
            r@ == all_sorts(),
    {
        [
            SortSpec::new("device", "Device total", "total_device_time_us", false),
            SortSpec::new("free", "Free total", "total_free_time_us", false),
            SortSpec::new("total", "Combined total", "total_time_us", false),
            SortSpec::new("count", "Call count", "call_count", false),
            SortSpec::new("avg_device", "Device avg", "avg_device_time_us", false),
            SortSpec::new("avg_free", "Free avg", "avg_free_time_us", false),
            SortSpec::new("occupancy", "Occupancy avg", "avg_occupancy_pct", false),
            SortSpec::new("first", "First call", "first_call_order", true),
        ]
    }

    /// The place of the way to order that has a key.
    fn position(key: &str) -> (r: Option<usize>)
        ensures
            match r {
                Some(i) => i < 8 && sort_index(key@) == Some(i as int),
                None => sort_index(key@) is None,
            },
    {
        let all = SortSpec::all();
        let mut i: usize = 0;
        while i < 8
            invariant
                i <= 8,
                all@ == all_sorts(),
                forall|j: int| 0 <= j < i ==> (#[trigger] all_sorts()[j]).key@ != key@,
            decreases 8 - i,
        {
            assert(forall|j: int| 0 <= j < i ==> (#[trigger] all@[j]).key@ != key@);
            if same_text(all[i].key, key) {
                assert(all_sorts()[0].key@ == "device"@);
                return Some(i);
            }
            i += 1;
        }
        assert(forall|j: int| 0 <= j < 8 ==> (#[trigger] all@[j]).key@ != key@);
        None
    }

    /// The way to order that has a key, or the first one where none has it.
    pub fn from_key(key: &str) -> (r: SortSpec)
        ensures
            r == sort_of_key(key@),
    {
        let all = SortSpec::all();
        match SortSpec::position(key) {
            Some(i) => all[i],
            None => all[0],
        }
    }

    /// The way to order that follows this one.
    pub fn next(self) -> (r: SortSpec)
        ensures
            r == sort_after_key(self.key@),
    {
        let all = SortSpec::all();
        match SortSpec::position(self.key) {
            Some(i) => all[(i + 1) % 8],
            None => all[1],
        }
    }

    /// The direction of this order.
    pub fn order_sql(self) -> (r: &'static str)
        ensures
            r@ == direction(self.ascending),
    {
        if self.ascending {
            "ASC"
        } else {
            "DESC"
        }
    }
}

/// Each way to order is found by its key, and what follows each is the one
/// offered after it. After the last comes the first.
pub proof fn sorts_form_a_cycle(i: int)
    requires
        0 <= i < 8,
    ensures
        sort_of_key(all_sorts()[i].key@) == all_sorts()[i],
        sort_after_key(all_sorts()[i].key@) == all_sorts()[(i + 1) % 8],
{
    reveal_strlit("device");
    reveal_strlit("free");
    reveal_strlit("total");
    reveal_strlit("count");
    reveal_strlit("avg_device");
    reveal_strlit("avg_free");
    reveal_strlit("occupancy");
    reveal_strlit("first");
    assert("device"@.len() == 6);
    assert("free"@.len() == 4);
    assert("total"@.len() == 5);
    assert("count"@.len() == 5);
    assert("avg_device"@.len() == 10);
    assert("avg_free"@.len() == 8);
    assert("occupancy"@.len() == 9);
    assert("first"@.len() == 5);
    assert("total"@[0] == 't');
    assert("count"@[0] == 'c');
    assert("first"@[0] == 'f');
    assert(all_sorts()[0].key == "device");
    assert(all_sorts()[1].key == "free");
    assert(all_sorts()[2].key == "total");
    assert(all_sorts()[3].key == "count");
    assert(all_sorts()[4].key == "avg_device");
    assert(all_sorts()[5].key == "avg_free");
    assert(all_sorts()[6].key == "occupancy");
    assert(all_sorts()[7].key == "first");
}

/// The columns of a summary row.
pub open spec fn summary_column_names() -> Seq<Seq<char>> {
    seq![
        "run_id"@,
        "first_call_order"@,
        "category"@,
        "op_name"@,
        "call_count"@,
        "total_device_time_us"@,
        "total_free_time_us"@,
        "total_time_us"@,
        "avg_device_time_us"@,
        "avg_free_time_us"@,
        "avg_time_us"@,
        "avg_occupancy_pct"@,
        "min_occupancy_pct"@,
        "max_occupancy_pct"@,
        "min_device_time_us"@,
        "min_free_time_us"@,
        "min_time_us"@,
        "max_device_time_us"@,
        "max_free_time_us"@,
        "max_time_us"@,
    ]
}

/// The columns of a summary row.
pub fn summary_columns() -> (r: Vec<String>)
    ensures
        views(r@) == summary_column_names(),
{
    let r: Vec<String> = vec![
        "run_id".to_owned(),
        "first_call_order".to_owned(),
        "category".to_owned(),
        "op_name".to_owned(),
        "call_count".to_owned(),
        "total_device_time_us".to_owned(),
        "total_free_time_us".to_owned(),
        "total_time_us".to_owned(),
        "avg_device_time_us".to_owned(),
        "avg_free_time_us".to_owned(),
        "avg_time_us".to_owned(),
        "avg_occupancy_pct".to_owned(),
        "min_occupancy_pct".to_owned(),
        "max_occupancy_pct".to_owned(),
        "min_device_time_us".to_owned(),
        "min_free_time_us".to_owned(),
        "min_time_us".to_owned(),
        "max_device_time_us".to_owned(),
        "max_free_time_us".to_owned(),
        "max_time_us".to_owned(),
    ];
    assert(views(r@) =~= summary_column_names());
    r
}

/// The columns of a call row.
pub open spec fn call_column_names() -> Seq<Seq<char>> {
    seq![
        "run_id"@,
        "call_order"@,
        "op_call_index"@,
        "category"@,
        "op_name"@,
        "device_time_us"@,
        "occupancy_pct"@,
        "blocks_per_sm"@,
        "warps_per_sm"@,
        "shared_memory"@,
        "grid"@,
        "block"@,
        "free_time_us"@,
        "total_time_us"@,
        "start_ts_us"@,
        "end_ts_us"@,
        "device"@,
        "stream"@,
        "pid"@,
        "tid"@,
        "correlation"@,
        "external_id"@,
    ]
}

/// The columns of a call row.
pub fn call_columns() -> (r: Vec<String>)
    ensures
        views(r@) == call_column_names(),
{
    let r: Vec<String> = vec![
        "run_id".to_owned(),
        "call_order".to_owned(),
        "op_call_index".to_owned(),
        "category".to_owned(),
        "op_name".to_owned(),
        "device_time_us".to_owned(),
        "occupancy_pct".to_owned(),
        "blocks_per_sm".to_owned(),
        "warps_per_sm".to_owned(),
        "shared_memory".to_owned(),
        "grid".to_owned(),
        "block".to_owned(),
        "free_time_us".to_owned(),
        "total_time_us".to_owned(),
        "start_ts_us".to_owned(),
        "end_ts_us".to_owned(),
        "device".to_owned(),
        "stream".to_owned(),
        "pid".to_owned(),
        "tid".to_owned(),
        "correlation".to_owned(),
        "external_id".to_owned(),
    ];
    assert(views(r@) =~= call_column_names());
    r
}

} // verus!
