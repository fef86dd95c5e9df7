//! What the terminal viewer shows: lines, titles and tables. Numbers are left as
//! they are, with how they are to be written.
use vstd::prelude::*;

use crate::db::{CallStats, RunRow, TotalsRow};
use crate::decimal::{i64_text, int_text};
use crate::measure::Measure;
use crate::text::{chars_of, opt_view, text_between};
use crate::tui::{App, InputMode};

verus! {

/// Something to be written.
#[derive(Debug)]
pub enum Figure {
    Text(String),
    /// A number with three decimals.
    Number(Measure),
    /// A thousandth of a number, with three decimals.
    Thousandth(Measure),
    /// A number of bytes, in kibibytes, with one decimal where it is not whole.
    Kib(Measure),
}

/// What is to be written.
pub enum FigureView {
    Text(Seq<char>),
    Number(Measure),
    Thousandth(Measure),
    Kib(Measure),
}

impl View for Figure {
    type V = FigureView;

    open spec fn view(&self) -> FigureView {
        match *self {
            Figure::Text(s) => FigureView::Text(s@),
            Figure::Number(x) => FigureView::Number(x),
            Figure::Thousandth(x) => FigureView::Thousandth(x),
            Figure::Kib(x) => FigureView::Kib(x),
        }
    }
}

/// What figures are.
pub open spec fn figure_views(figures: Seq<Figure>) -> Seq<FigureView> {
    figures.map_values(|f: Figure| f@)
}

/// An integer.
pub open spec fn whole(n: i64) -> FigureView {
    FigureView::Text(int_text(n as int))
}

/// A text, or nothing.
pub open spec fn text_or_nothing(s: Option<Seq<char>>) -> FigureView {
    match s {
        Some(s) => FigureView::Text(s),
        None => FigureView::Text(Seq::empty()),
    }
}

/// A number, or nothing.
pub open spec fn number_or_nothing(x: Option<Measure>) -> FigureView {
    match x {
        Some(x) => FigureView::Number(x),
        None => FigureView::Text(Seq::empty()),
    }
}

/// A number, or a dash.
pub open spec fn number_or_dash(x: Option<Measure>) -> FigureView {
    match x {
        Some(x) => FigureView::Number(x),
        None => FigureView::Text("-"@),
    }
}

/// A number of bytes, or nothing.
pub open spec fn kib_or_nothing(x: Option<Measure>) -> FigureView {
    match x {
        Some(x) => FigureView::Kib(x),
        None => FigureView::Text(Seq::empty()),
    }
}

/// An integer.
pub fn integer(n: i64) -> (r: Figure)
    ensures
        r@ == whole(n),
{
    Figure::Text(i64_text(n))
}

/// A text, or nothing.
pub fn opt_text(s: &Option<String>) -> (r: Figure)
    ensures
        r@ == text_or_nothing(opt_view(*s)),
{
    match s {
        Some(s) => Figure::Text(s.clone()),
        None => Figure::Text(String::new()),
    }
}

/// A number, or nothing.
pub fn opt(x: Option<Measure>) -> (r: Figure)
    ensures
        r@ == number_or_nothing(x),
{
    match x {
        Some(x) => Figure::Number(x),
        None => Figure::Text(String::new()),
    }
}

/// A number, or a dash.
pub fn fmt_us(x: Option<Measure>) -> (r: Figure)
    ensures
        r@ == number_or_dash(x),
{
    match x {
        Some(x) => Figure::Number(x),
        None => Figure::Text("-".to_owned()),
    }
}

/// A number of bytes, or nothing.
pub fn fmt_kib(x: Option<Measure>) -> (r: Figure)
    ensures
        r@ == kib_or_nothing(x),
{
    match x {
        Some(x) => Figure::Kib(x),
        None => Figure::Text(String::new()),
    }
}

/// A text, cut off at a number of characters. Where something is cut off, the
/// last character is a tilde.
pub open spec fn truncated(s: Seq<char>, max: nat) -> Seq<char> {
    if s.len() <= max {
        s
    } else if max == 0 {
        seq!['~']
    } else {
        s.take(max - 1).push('~')
    }
}

/// A text, cut off at a number of characters.
pub fn trunc(value: &str, max: usize) -> (r: String)
    ensures
        r@ == truncated(value@, max as nat),
{
    let chars = chars_of(value);
    if chars.len() <= max {
        return value.to_owned();
    }
    let keep: usize = if max == 0 {
        0
    } else {
        max - 1
    };
    let mut out = text_between(&chars, 0, keep);
    out.push('~');
    assert(out@ =~= truncated(value@, max as nat));
    out
}

/// A text that is cut off is no longer than it may be, or one character where it
/// may have none, and begins as the text does. Cutting it off again changes nothing.
pub proof fn truncation_fits(s: Seq<char>, max: nat)
    ensures
        truncated(s, max).len() <= if max == 0 && s.len() > 0 {
            1
        } else {
            max
        },
        forall|i: int|
            0 <= i < truncated(s, max).len() - 1 ==> #[trigger] truncated(s, max)[i] == s[i],
        truncated(truncated(s, max), max) == truncated(s, max),
{
}

/// A text, or a dash where it is empty.
pub open spec fn dashed(s: Seq<char>) -> Seq<char> {
    if s.len() == 0 {
        "-"@
    } else {
        s
    }
}

/// A text, or a dash where it is empty.
pub fn empty_dash(value: &str) -> (r: String)
    ensures
        r@ == dashed(value@),
{
    if value.is_empty() {
        "-".to_owned()
    } else {
        value.to_owned()
    }
}

/// What a part of a line is for.
#[derive(Clone, Copy, Debug, PartialEq, Eq, Structural)]
pub enum Tone {
    Value,
    Label,
    Metric,
    Key,
    Separator,
    Plain,
}

/// A part of a line.
#[derive(Debug)]
pub struct Span {
    pub text: Figure,
    pub tone: Tone,
}

/// What a part of a line is.
pub struct SpanView {
    pub text: FigureView,
    pub tone: Tone,
}

impl View for Span {
    type V = SpanView;

    open spec fn view(&self) -> SpanView {
        SpanView { text: self.text@, tone: self.tone }
    }
}

/// What a line is.
pub open spec fn line_view(spans: Seq<Span>) -> Seq<SpanView> {
    spans.map_values(|s: Span| s@)
}

/// A part of a line that is a text.
pub open spec fn words(s: Seq<char>, tone: Tone) -> SpanView {
    SpanView { text: FigureView::Text(s), tone }
}

/// A part of a line that is a value.
pub open spec fn value(text: FigureView) -> SpanView {
    SpanView { text, tone: Tone::Value }
}

fn span(text: &str, tone: Tone) -> (r: Span)
    ensures
        r@ == words(text@, tone),
{
    Span { text: Figure::Text(text.to_owned()), tone }
}

fn value_span(text: Figure) -> (r: Span)
    ensures
        r@ == value(text@),
{
    Span { text, tone: Tone::Value }
}

/// What a run is called.
pub open spec fn run_name(run: RunRow) -> Seq<char> {
    "#"@ + int_text(run.id as int) + " "@ + (match run.label {
        Some(label) => label@,
        None => run.source_path@,
    })
}

impl App {
    /// What the run that is shown is called.
    pub open spec fn shown_label(self) -> Seq<char> {
        if self.run_idx < self.runs@.len() {
            run_name(self.runs@[self.run_idx as int])
        } else {
            "no runs"@
        }
    }

    /// What the run that is shown is called.
    pub fn run_label(&self) -> (r: String)
        ensures
            r@ == self.shown_label(),
    {
        if self.run_idx >= self.runs.len() {
            return "no runs".to_owned();
        }
        let run = &self.runs[self.run_idx];
        let mut out = "#".to_owned();
        out.append(i64_text(run.id).as_str());
        out.append(" ");
        match &run.label {
            Some(label) => out.append(label.as_str()),
            None => out.append(run.source_path.as_str()),
        }
        out
    }

    /// The number of the call that is asked for, or a dash.
    pub open spec fn asked_order(self) -> Seq<char> {
        match self.call_order {
            Some(order) => int_text(order as int),
            None => "-"@,
        }
    }
}

/// How many characters of a line are left for the name of the run, between
/// twelve and forty-eight.
pub open spec fn run_width(width: u16, sort_label: nat, filter: nat, call_order: nat) -> nat {
    let kept = " | sort  | filter  | call_order "@.len() + sort_label + (if filter < 12 {
        filter
    } else {
        12nat
    }) + call_order;
    if width < kept + 12 {
        12
    } else if width > kept + 48 {
        48
    } else {
        (width - kept) as nat
    }
}

/// What is asked for.
pub open spec fn request_line(app: App, width: u16) -> Seq<SpanView> {
    let filter = dashed(app.filter@);
    let room = run_width(width, app.sort.label@.len(), filter.len(), app.asked_order().len());
    seq![
        words(truncated(app.shown_label(), room), Tone::Value),
        words(" | "@, Tone::Separator),
        words("sort "@, Tone::Label),
        words(app.sort.label@, Tone::Value),
        words(" | "@, Tone::Separator),
        words("filter "@, Tone::Label),
        words(truncated(filter, 12), Tone::Value),
        words(" | "@, Tone::Separator),
        words("call_order "@, Tone::Label),
        words(app.asked_order(), Tone::Value),
    ]
}

/// The sums of the run.
pub open spec fn totals_line(totals: TotalsRow) -> Seq<SpanView> {
    seq![
        words("unique ops "@, Tone::Metric),
        value(whole(totals.unique_ops)),
        words("  calls "@, Tone::Metric),
        value(whole(totals.call_count)),
        words("  device ms "@, Tone::Metric),
        value(FigureView::Thousandth(totals.total_device_time_us)),
        words("  free ms "@, Tone::Metric),
        value(FigureView::Thousandth(totals.total_free_time_us)),
        words("  occ % "@, Tone::Metric),
        value(number_or_dash(totals.avg_occupancy_pct)),
    ]
}

/// The keys.
pub open spec fn keys_line() -> Seq<SpanView> {
    seq![
        words("keys "@, Tone::Label),
        words("q"@, Tone::Key),
        words(" quit  "@, Tone::Plain),
        words("tab"@, Tone::Key),
        words(" focus  "@, Tone::Plain),
        words("j/k"@, Tone::Key),
        words(" move  "@, Tone::Plain),
        words("/"@, Tone::Key),
        words(" filter  "@, Tone::Plain),
        words("g"@, Tone::Key),
        words(" call order  "@, Tone::Plain),
        words("s"@, Tone::Key),
        words(" sort  "@, Tone::Plain),
        words("r"@, Tone::Key),
        words(" run  "@, Tone::Plain),
        words("c"@, Tone::Key),
        words(" clear"@, Tone::Plain),
    ]
}

fn room_for_run(width: u16, sort_label: usize, filter: usize, call_order: usize) -> (r: usize)
    ensures
        r == run_width(width, sort_label as nat, filter as nat, call_order as nat),
{
    proof {
        reveal_strlit(" | sort  | filter  | call_order ");
    }
    let filter: usize = if filter < 12 {
        filter
    } else {
        12
    };
    let kept: u128 = 32u128 + sort_label as u128 + filter as u128 + call_order as u128;
    let width: u128 = width as u128;
    if width < kept + 12 {
        12
    } else if width > kept + 48 {
        48
    } else {
        (width - kept) as usize
    }
}

fn write_request_line(app: &App, width: u16) -> (r: Vec<Span>)
    ensures
        line_view(r@) == request_line(*app, width),
{
    let filter = empty_dash(app.filter.as_str());
    let call_order = match app.call_order {
        Some(order) => i64_text(order),
        None => "-".to_owned(),
    };
    let room = room_for_run(
        width,
        chars_of(app.sort.label).len(),
        chars_of(filter.as_str()).len(),
        chars_of(call_order.as_str()).len(),
    );
    let r: Vec<Span> = vec![
        span(trunc(app.run_label().as_str(), room).as_str(), Tone::Value),
        span(" | ", Tone::Separator),
        span("sort ", Tone::Label),
        span(app.sort.label, Tone::Value),
        span(" | ", Tone::Separator),
        span("filter ", Tone::Label),
        span(trunc(filter.as_str(), 12).as_str(), Tone::Value),
        span(" | ", Tone::Separator),
        span("call_order ", Tone::Label),
        span(call_order.as_str(), Tone::Value),
    ];
    assert(line_view(r@) =~= request_line(*app, width));
    r
}

fn write_totals_line(totals: &TotalsRow) -> (r: Vec<Span>)
    ensures
        line_view(r@) == totals_line(*totals),
{
    let r: Vec<Span> = vec![
        span("unique ops ", Tone::Metric),
        value_span(integer(totals.unique_ops)),
        span("  calls ", Tone::Metric),
        value_span(integer(totals.call_count)),
        span("  device ms ", Tone::Metric),
        value_span(Figure::Thousandth(totals.total_device_time_us)),
        span("  free ms ", Tone::Metric),
        value_span(Figure::Thousandth(totals.total_free_time_us)),
        span("  occ % ", Tone::Metric),
        value_span(fmt_us(totals.avg_occupancy_pct)),
    ];
    assert(line_view(r@) =~= totals_line(*totals));
    r
}

fn write_keys_line() -> (r: Vec<Span>)
    ensures
        line_view(r@) == keys_line(),
{
    let r: Vec<Span> = vec![
        span("keys ", Tone::Label),
        span("q", Tone::Key),
        span(" quit  ", Tone::Plain),
        span("tab", Tone::Key),
        span(" focus  ", Tone::Plain),
        span("j/k", Tone::Key),
        span(" move  ", Tone::Plain),
        span("/", Tone::Key),
        span(" filter  ", Tone::Plain),
        span("g", Tone::Key),
        span(" call order  ", Tone::Plain),
        span("s", Tone::Key),
        span(" sort  ", Tone::Plain),
        span("r", Tone::Key),
        span(" run  ", Tone::Plain),
        span("c", Tone::Key),
        span(" clear", Tone::Plain),
    ];
    assert(line_view(r@) =~= keys_line());
    r
}

/// The lines above the tables.
pub fn top_lines(app: &App, width: u16) -> (r: Vec<Vec<Span>>)
    ensures
        r@.len() == 3,
        line_view(r@[0]@) == request_line(*app, width),
        line_view(r@[1]@) == totals_line(app.totals),
        line_view(r@[2]@) == keys_line(),
{
    vec![write_request_line(app, width), write_totals_line(&app.totals), write_keys_line()]
}

/// A prompt and what was typed.
pub open spec fn prompt_line(label: Seq<char>, input: Seq<char>) -> Seq<SpanView> {
    seq![words(label + "> "@, Tone::Label), words(input, Tone::Value)]
}

/// A prompt and what was typed.
pub fn input_line(label: &str, input: &str) -> (r: Vec<Span>)
    ensures
        line_view(r@) == prompt_line(label@, input@),
{
    let mut prompt = label.to_owned();
    prompt.append("> ");
    let r: Vec<Span> = vec![span(prompt.as_str(), Tone::Label), span(input, Tone::Value)];
    assert(line_view(r@) =~= prompt_line(label@, input@));
    r
}

/// What the line below the tables shows of what is typed.
pub open spec fn prompt_shown(app: App) -> Seq<SpanView> {
    match app.input_mode {
        InputMode::Normal => Seq::empty(),
        InputMode::Filter => prompt_line("filter"@, app.input@),
        InputMode::CallOrder => prompt_line("call_order"@, app.input@),
    }
}

/// The line below the tables that shows what is typed.
pub fn prompt(app: &App) -> (r: Vec<Span>)
    ensures
        line_view(r@) == (match app.input_mode {
            InputMode::Normal => Seq::empty(),
            InputMode::Filter => prompt_line("filter"@, app.input@),
            InputMode::CallOrder => prompt_line("call_order"@, app.input@),
        }),
        line_view(r@) == prompt_shown(*app),
{
    match app.input_mode {
        InputMode::Normal => {
            let r: Vec<Span> = Vec::new();
            assert(line_view(r@) =~= Seq::empty());
            r
        },
        InputMode::Filter => input_line("filter", app.input.as_str()),
        InputMode::CallOrder => input_line("call_order", app.input.as_str()),
    }
}

/// The statistics of the calls.
pub open spec fn stats_line(stats: CallStats) -> Seq<SpanView> {
    seq![
        words("device stats "@, Tone::Label),
        words("count "@, Tone::Label),
        value(whole(stats.count)),
        words("  total "@, Tone::Label),
        value(FigureView::Number(stats.total)),
        words("  min "@, Tone::Label),
        value(number_or_dash(stats.min)),
        words("  mean "@, Tone::Label),
        value(number_or_dash(stats.mean)),
        words("  max "@, Tone::Label),
        value(number_or_dash(stats.max)),
        words("  p50 "@, Tone::Label),
        value(number_or_dash(stats.p50)),
        words("  p75 "@, Tone::Label),
        value(number_or_dash(stats.p75)),
        words("  p95 "@, Tone::Label),
        value(number_or_dash(stats.p95)),
        words("  p99 "@, Tone::Label),
        value(number_or_dash(stats.p99)),
        words("  p99.9 "@, Tone::Label),
        value(number_or_dash(stats.p999)),
        words(" us"@, Tone::Separator),
    ]
}

/// The line that shows the statistics of the calls.
pub fn call_stats_line(stats: &CallStats) -> (r: Vec<Span>)
    ensures
        line_view(r@) == stats_line(*stats),
{
    let r: Vec<Span> = vec![
        span("device stats ", Tone::Label),
        span("count ", Tone::Label),
        value_span(integer(stats.count)),
        span("  total ", Tone::Label),
        value_span(fmt_us(Some(stats.total))),
        span("  min ", Tone::Label),
        value_span(fmt_us(stats.min)),
        span("  mean ", Tone::Label),
        value_span(fmt_us(stats.mean)),
        span("  max ", Tone::Label),
        value_span(fmt_us(stats.max)),
        span("  p50 ", Tone::Label),
        value_span(fmt_us(stats.p50)),
        span("  p75 ", Tone::Label),
        value_span(fmt_us(stats.p75)),
        span("  p95 ", Tone::Label),
        value_span(fmt_us(stats.p95)),
        span("  p99 ", Tone::Label),
        value_span(fmt_us(stats.p99)),
        span("  p99.9 ", Tone::Label),
        value_span(fmt_us(stats.p999)),
        span(" us", Tone::Separator),
    ];
    assert(line_view(r@) =~= stats_line(*stats));
    r
}

/// Whether a line says something behind a label.
pub open spec fn says(line: Seq<SpanView>, label: Seq<char>, figure: FigureView) -> bool {
    exists|i: int|
        0 <= i < line.len() - 1 && (#[trigger] line[i]).text == FigureView::Text(label) && line[i
            + 1].text == figure
}

/// A number, or a dash where it is missing.
pub open spec fn amount_or_dash(x: Option<Measure>) -> FigureView {
    match x {
        Some(x) => FigureView::Number(x),
        None => FigureView::Text(seq!['-']),
    }
}

proof fn lemma_dash(x: Option<Measure>)
    ensures
        number_or_dash(x) == amount_or_dash(x),
{
    reveal_strlit("-");
    assert("-"@ =~= seq!['-']);
}

/// The line of the statistics says each of them behind its own label.
pub proof fn statistics_stand_behind_their_labels(stats: CallStats)
    ensures
        ({
            let line = stats_line(stats);
            &&& says(line, "count "@, FigureView::Text(int_text(stats.count as int)))
            &&& says(line, "  total "@, FigureView::Number(stats.total))
            &&& says(line, "  min "@, amount_or_dash(stats.min))
            &&& says(line, "  mean "@, amount_or_dash(stats.mean))
            &&& says(line, "  max "@, amount_or_dash(stats.max))
            &&& says(line, "  p50 "@, amount_or_dash(stats.p50))
            &&& says(line, "  p75 "@, amount_or_dash(stats.p75))
            &&& says(line, "  p95 "@, amount_or_dash(stats.p95))
            &&& says(line, "  p99 "@, amount_or_dash(stats.p99))
            &&& says(line, "  p99.9 "@, amount_or_dash(stats.p999))
        }),
{
    lemma_dash(stats.min);
    lemma_dash(stats.mean);
    lemma_dash(stats.max);
    lemma_dash(stats.p50);
    lemma_dash(stats.p75);
    lemma_dash(stats.p95);
    lemma_dash(stats.p99);
    lemma_dash(stats.p999);
    let line = stats_line(stats);
    assert(line[1].text == FigureView::Text("count "@));
    assert(line[3].text == FigureView::Text("  total "@));
    assert(line[5].text == FigureView::Text("  min "@));
    assert(line[7].text == FigureView::Text("  mean "@));
    assert(line[9].text == FigureView::Text("  max "@));
    assert(line[11].text == FigureView::Text("  p50 "@));
    assert(line[13].text == FigureView::Text("  p75 "@));
    assert(line[15].text == FigureView::Text("  p95 "@));
    assert(line[17].text == FigureView::Text("  p99 "@));
    assert(line[19].text == FigureView::Text("  p99.9 "@));
}

/// The line of the sums of a run says each of them behind its own label, times in
/// milliseconds.
pub proof fn sums_stand_behind_their_labels(totals: TotalsRow)
    ensures
        ({
            let line = totals_line(totals);
            &&& says(line, "unique ops "@, FigureView::Text(int_text(totals.unique_ops as int)))
            &&& says(line, "  calls "@, FigureView::Text(int_text(totals.call_count as int)))
            &&& says(line, "  device ms "@, FigureView::Thousandth(totals.total_device_time_us))
            &&& says(line, "  free ms "@, FigureView::Thousandth(totals.total_free_time_us))
            &&& says(line, "  occ % "@, amount_or_dash(totals.avg_occupancy_pct))
        }),
{
    lemma_dash(totals.avg_occupancy_pct);
    let line = totals_line(totals);
    assert(line[0].text == FigureView::Text("unique ops "@));
    assert(line[2].text == FigureView::Text("  calls "@));
    assert(line[4].text == FigureView::Text("  device ms "@));
    assert(line[6].text == FigureView::Text("  free ms "@));
    assert(line[8].text == FigureView::Text("  occ % "@));
}

/// The line of what is asked for begins with the run, cut off where there is no room
/// for it, and says the order, the filter and the number of the call behind their
/// labels, or a dash where there is none. At most twelve characters of the filter are
/// shown, and between twelve and forty-eight of the run.
pub proof fn what_is_asked_for_stands_behind_its_labels(app: App, width: u16)
    ensures
        ({
            let line = request_line(app, width);
            let room = run_width(
                width,
                app.sort.label@.len(),
                dashed(app.filter@).len(),
                app.asked_order().len(),
            );
            &&& says(line, "sort "@, FigureView::Text(app.sort.label@))
            &&& app.filter@.len() == 0 ==> says(line, "filter "@, FigureView::Text(seq!['-']))
            &&& 0 < app.filter@.len() <= 12 ==> says(
                line,
                "filter "@,
                FigureView::Text(app.filter@),
            )
            &&& app.filter@.len() > 12 ==> says(
                line,
                "filter "@,
                FigureView::Text(app.filter@.take(11).push('~')),
            )
            &&& app.call_order is Some ==> says(
                line,
                "call_order "@,
                FigureView::Text(int_text(app.call_order->0 as int)),
            )
            &&& app.call_order is None ==> says(
                line,
                "call_order "@,
                FigureView::Text(seq!['-']),
            )
            &&& line[0].text == FigureView::Text(truncated(app.shown_label(), room))
            &&& 12 <= room <= 48
        }),
{
    let line = request_line(app, width);
    reveal_strlit("-");
    assert("-"@ =~= seq!['-']);
    assert(line[2].text == FigureView::Text("sort "@));
    assert(line[5].text == FigureView::Text("filter "@));
    assert(line[8].text == FigureView::Text("call_order "@));
}

/// The line of what is asked for fills the width that there is, where the name of the
/// run is longer than the room that is left for it and neither bound of that room is
/// reached.
pub proof fn what_is_asked_for_fills_the_width(
    width: u16,
    sort_label: nat,
    filter: nat,
    call_order: nat,
)
    ensures
        ({
            let room = run_width(width, sort_label, filter, call_order);
            let shown_filter = if filter < 12 {
                filter
            } else {
                12nat
            };
            let labels = " | "@.len() + "sort "@.len() + " | "@.len() + "filter "@.len() + " | "@.len()
                + "call_order "@.len();
            12 < room < 48 ==> room + labels + sort_label + shown_filter + call_order == width
        }),
{
    reveal_strlit(" | ");
    reveal_strlit("sort ");
    reveal_strlit("filter ");
    reveal_strlit("call_order ");
    reveal_strlit(" | sort  | filter  | call_order ");
}

/// A run is called by its number, and by its label or else by the path of its source.
pub proof fn runs_are_called_by_number_and_label(app: App)
    ensures
        app.run_idx < app.runs@.len() ==> {
            let run = app.runs@[app.run_idx as int];
            let name = app.shown_label();
            let number = int_text(run.id as int);
            &&& run.label is Some ==> name == seq!['#'] + number + seq![' '] + run.label->0@
            &&& run.label is None ==> name == seq!['#'] + number + seq![' '] + run.source_path@
        },
        app.run_idx >= app.runs@.len() ==> app.shown_label() == "no runs"@,
{
    reveal_strlit("#");
    reveal_strlit(" ");
    assert("#"@ =~= seq!['#']);
    assert(" "@ =~= seq![' ']);
}

/// A text that is cut off is its beginning and a tilde, and has as many characters as
/// it may have. A text that fits is left as it is.
pub proof fn texts_are_cut_off_where_they_are_too_long(s: Seq<char>, max: nat)
    ensures
        s.len() <= max ==> truncated(s, max) == s,
        s.len() > max > 0 ==> truncated(s, max) == s.take(max - 1) + seq!['~'],
        s.len() > max && max == 0 ==> truncated(s, max) == seq!['~'],
{
}

/// A prompt says behind its label what was typed, and there is none while nothing is
/// typed.
pub proof fn prompts_show_what_is_typed(app: App)
    ensures
        app.input_mode == InputMode::Normal ==> prompt_shown(app).len() == 0,
        app.input_mode == InputMode::Filter ==> says(
            prompt_shown(app),
            "filter> "@,
            FigureView::Text(app.input@),
        ),
        app.input_mode == InputMode::CallOrder ==> says(
            prompt_shown(app),
            "call_order> "@,
            FigureView::Text(app.input@),
        ),
{
    reveal_strlit("filter");
    reveal_strlit("call_order");
    reveal_strlit("> ");
    reveal_strlit("filter> ");
    reveal_strlit("call_order> ");
    assert("filter"@ + "> "@ =~= "filter> "@);
    assert("call_order"@ + "> "@ =~= "call_order> "@);
    let line = prompt_shown(app);
    if app.input_mode == InputMode::Filter {
        assert(line[0].text == FigureView::Text("filter> "@));
    } else if app.input_mode == InputMode::CallOrder {
        assert(line[0].text == FigureView::Text("call_order> "@));
    }
}

/// Each key is named before what it does.
pub proof fn keys_are_named_before_what_they_do()
    ensures
        says(keys_line(), "q"@, FigureView::Text(" quit  "@)),
        says(keys_line(), "tab"@, FigureView::Text(" focus  "@)),
        says(keys_line(), "j/k"@, FigureView::Text(" move  "@)),
        says(keys_line(), "/"@, FigureView::Text(" filter  "@)),
        says(keys_line(), "g"@, FigureView::Text(" call order  "@)),
        says(keys_line(), "s"@, FigureView::Text(" sort  "@)),
        says(keys_line(), "r"@, FigureView::Text(" run  "@)),
        says(keys_line(), "c"@, FigureView::Text(" clear"@)),
{
    let line = keys_line();
    assert(line[1].text == FigureView::Text("q"@));
    assert(line[3].text == FigureView::Text("tab"@));
    assert(line[5].text == FigureView::Text("j/k"@));
    assert(line[7].text == FigureView::Text("/"@));
    assert(line[9].text == FigureView::Text("g"@));
    assert(line[11].text == FigureView::Text("s"@));
    assert(line[13].text == FigureView::Text("r"@));
    assert(line[15].text == FigureView::Text("c"@));
}

} // verus!
