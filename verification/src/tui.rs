//! The terminal viewer: what is shown, what a key does, and what is to be read
//! from the database for it.
use vstd::prelude::*;

use crate::db::{
    all_sorts, no_stats, no_totals, sort_after_key, sort_of_key, sorts_form_a_cycle, CallRow, CallStats, RunRow,
    SortSpec, SummaryRow, TotalsRow,
};
use crate::decimal::{
    decimal_round_trip, i64_text, i64_value, int_text, lemma_nat_text_value, nat_text, parse_i64,
};
use crate::query::{
    call_context, call_context_statement, call_stats, call_stats_statement, calls,
    calls_statement, context_first, context_fits, context_last, has_context, summary, summary_statement, totals,
    totals_statement, Statement, StatementView,
};
use crate::text::{
    as_str, chars_of, non_empty, opt_view, present, text_between, trim,
    trimmed, trimming_settles,
};

verus! {

/// The table that keys move in.
#[derive(Clone, Copy, Debug, PartialEq, Eq, Structural)]
pub enum Focus {
    Summary,
    Calls,
}

/// What is being typed.
#[derive(Clone, Copy, Debug, PartialEq, Eq, Structural)]
pub enum InputMode {
    Normal,
    Filter,
    CallOrder,
}

/// A key.
#[derive(Clone, Copy, Debug, PartialEq, Eq, Structural)]
pub enum Key {
    Char(char),
    Enter,
    Esc,
    Backspace,
    Tab,
    Up,
    Down,
    Other,
}

/// How far a title that is too long has moved.
#[derive(Debug)]
pub struct Scroll {
    pub key: String,
    pub offset: usize,
    pub tick: u8,
}

/// The state of the viewer.
#[derive(Debug)]
pub struct App {
    pub runs: Vec<RunRow>,
    pub run_idx: usize,
    pub totals: TotalsRow,
    pub summary: Vec<SummaryRow>,
    pub calls: Vec<CallRow>,
    pub context: Vec<CallRow>,
    pub call_stats: CallStats,
    pub summary_selected: Option<usize>,
    pub calls_selected: Option<usize>,
    pub focus: Focus,
    pub input_mode: InputMode,
    pub input: String,
    pub filter: String,
    pub selected_op: Option<String>,
    pub call_order: Option<i64>,
    pub sort: SortSpec,
    pub summary_limit: i64,
    pub calls_limit: i64,
    pub scroll: Scroll,
}

/// What keys change at once.
pub struct Control {
    pub run_idx: int,
    pub summary_selected: Option<usize>,
    pub calls_selected: Option<usize>,
    pub focus: Focus,
    pub input_mode: InputMode,
    pub input: Seq<char>,
    pub filter: Seq<char>,
    pub selected_op: Option<Seq<char>>,
    pub call_order: Option<i64>,
    pub sort: SortSpec,
}

/// What is shown, as far as keys depend on it: how many runs there are, the names
/// of the operations, and how many calls there are.
pub struct Shown {
    pub runs: nat,
    pub ops: Seq<Seq<char>>,
    pub calls: nat,
}

/// Whether a way to sort is one of those that are offered.
pub open spec fn is_offered(sort: SortSpec) -> bool {
    exists|i: int| 0 <= i < 8 && sort == #[trigger] all_sorts()[i]
}

/// What is to be read again.
#[derive(Clone, Copy, Debug, PartialEq, Eq, Structural)]
pub enum Reload {
    Nothing,
    /// The calls around the selected one.
    Context,
    /// The calls, and what depends on them.
    Calls,
    /// The operations and the calls.
    Tables,
    /// The operations and the calls, with no operation asked for.
    Cleared,
    /// All of a run.
    All,
}

/// What a key leads to.
#[derive(Clone, Copy, Debug, PartialEq, Eq, Structural)]
pub enum Outcome {
    Quit,
    Reload(Reload),
    /// What was typed is not the number of a call.
    BadCallOrder,
}

/// The selection in a table of which nothing was selected yet.
pub open spec fn first_selected(len: nat) -> Option<usize> {
    if len == 0 {
        None
    } else {
        Some(0)
    }
}

/// Selects the first row.
pub fn select_first(len: usize) -> (r: Option<usize>)
    ensures
        r == first_selected(len as nat),
{
    if len == 0 {
        None
    } else {
        Some(0)
    }
}

/// The selection after a step down or up. It stays in the table.
pub open spec fn moved(selected: Option<usize>, len: nat, down: bool) -> Option<usize> {
    let current = match selected {
        Some(i) => i as int,
        None => 0,
    };
    let next = if down {
        current + 1
    } else {
        current - 1
    };
    if len == 0 {
        None
    } else if next < 0 {
        Some(0)
    } else if next >= len {
        Some((len - 1) as usize)
    } else {
        Some(next as usize)
    }
}

/// Moves the selection.
pub fn move_state(selected: Option<usize>, len: usize, down: bool) -> (r: Option<usize>)
    ensures
        r == moved(selected, len as nat, down),
{
    if len == 0 {
        return None;
    }
    let current: usize = match selected {
        Some(i) => i,
        None => 0,
    };
    if down {
        if current < len - 1 {
            Some(current + 1)
        } else {
            Some(len - 1)
        }
    } else if current == 0 {
        Some(0)
    } else if current - 1 < len {
        Some(current - 1)
    } else {
        Some(len - 1)
    }
}

/// Whether a selection is in a table, and is there if the table has rows.
pub open spec fn is_selection(selected: Option<usize>, len: nat) -> bool {
    match selected {
        Some(i) => i < len,
        None => len == 0,
    }
}

/// The operation that is selected.
pub open spec fn op_at(shown: Shown, selected: Option<usize>) -> Option<Seq<char>> {
    match selected {
        Some(i) => if i < shown.ops.len() {
            Some(shown.ops[i as int])
        } else {
            None
        },
        None => None,
    }
}

/// What typing is over with.
pub open spec fn typed(c: Control) -> Control {
    Control { input_mode: InputMode::Normal, input: Seq::empty(), ..c }
}

/// What the Enter key does to what was typed.
pub open spec fn submitted(c: Control) -> (Control, Outcome) {
    match c.input_mode {
        InputMode::Normal => (typed(c), Outcome::Reload(Reload::Nothing)),
        InputMode::Filter => (
            typed(Control { filter: trimmed(c.input), selected_op: None, call_order: None, ..c }),
            Outcome::Reload(Reload::Tables),
        ),
        InputMode::CallOrder => if trimmed(c.input).len() == 0 {
            (
                typed(Control { selected_op: None, call_order: None, ..c }),
                Outcome::Reload(Reload::Calls),
            )
        } else {
            match i64_value(trimmed(c.input)) {
                Some(order) => (
                    typed(Control { selected_op: None, call_order: Some(order), ..c }),
                    Outcome::Reload(Reload::Calls),
                ),
                None => (c, Outcome::BadCallOrder),
            }
        },
    }
}

/// What a key does while something is typed.
pub open spec fn key_in_prompt(c: Control, key: Key) -> (Control, Outcome) {
    let stay = Outcome::Reload(Reload::Nothing);
    match key {
        Key::Esc => (typed(c), stay),
        Key::Enter => submitted(c),
        Key::Backspace => (
            Control {
                input: if c.input.len() > 0 {
                    c.input.drop_last()
                } else {
                    c.input
                },
                ..c
            },
            stay,
        ),
        Key::Char(ch) => (Control { input: c.input.push(ch), ..c }, stay),
        _ => (c, stay),
    }
}

/// What a step down or up does.
pub open spec fn stepped(c: Control, shown: Shown, down: bool) -> (Control, Outcome) {
    match c.focus {
        Focus::Summary => {
            let selected = moved(c.summary_selected, shown.ops.len(), down);
            (
                Control {
                    summary_selected: selected,
                    call_order: None,
                    selected_op: op_at(shown, selected),
                    ..c
                },
                Outcome::Reload(Reload::Calls),
            )
        },
        Focus::Calls => (
            Control { calls_selected: moved(c.calls_selected, shown.calls, down), ..c },
            Outcome::Reload(Reload::Context),
        ),
    }
}

/// What the keys that ask for something do.
pub open spec fn commanded(c: Control, shown: Shown, key: char) -> (Control, Outcome) {
    let stay = Outcome::Reload(Reload::Nothing);
    if key == 'q' {
        (c, Outcome::Quit)
    } else if key == '/' {
        (Control { input_mode: InputMode::Filter, input: c.filter, ..c }, stay)
    } else if key == 'g' {
        (
            Control {
                input_mode: InputMode::CallOrder,
                input: match c.call_order {
                    Some(order) => int_text(order as int),
                    None => Seq::empty(),
                },
                ..c
            },
            stay,
        )
    } else if key == 'c' {
        (
            Control { filter: Seq::empty(), selected_op: None, call_order: None, ..c },
            Outcome::Reload(Reload::Cleared),
        )
    } else if key == 'r' {
        if shown.runs > 0 {
            (
                Control {
                    run_idx: (c.run_idx + 1) % (shown.runs as int),
                    selected_op: None,
                    call_order: None,
                    ..c
                },
                Outcome::Reload(Reload::All),
            )
        } else {
            (c, stay)
        }
    } else if key == 's' {
        (Control { sort: sort_after_key(c.sort.key@), ..c }, Outcome::Reload(Reload::Tables))
    } else if key == 'j' {
        stepped(c, shown, true)
    } else if key == 'k' {
        stepped(c, shown, false)
    } else {
        (c, stay)
    }
}

/// What a key does.
pub open spec fn pressed(c: Control, shown: Shown, key: Key) -> (Control, Outcome) {
    let stay = Outcome::Reload(Reload::Nothing);
    if c.input_mode != InputMode::Normal {
        key_in_prompt(c, key)
    } else {
        match key {
            Key::Char(key) => commanded(c, shown, key),
            Key::Tab => (
                Control {
                    focus: match c.focus {
                        Focus::Summary => Focus::Calls,
                        Focus::Calls => Focus::Summary,
                    },
                    ..c
                },
                stay,
            ),
            Key::Enter => if c.focus == Focus::Summary && op_at(
                shown,
                c.summary_selected,
            ) is Some {
                (
                    Control {
                        selected_op: op_at(shown, c.summary_selected),
                        call_order: None,
                        focus: Focus::Calls,
                        ..c
                    },
                    Outcome::Reload(Reload::Calls),
                )
            } else {
                (c, stay)
            },
            Key::Down => stepped(c, shown, true),
            Key::Up => stepped(c, shown, false),
            _ => (c, stay),
        }
    }
}

/// The names of operations.
pub open spec fn op_names(rows: Seq<SummaryRow>) -> Seq<Seq<char>> {
    rows.map_values(|row: SummaryRow| row.op_name@)
}

impl App {
    /// What keys change at once.
    pub open spec fn control(self) -> Control {
        Control {
            run_idx: self.run_idx as int,
            summary_selected: self.summary_selected,
            calls_selected: self.calls_selected,
            focus: self.focus,
            input_mode: self.input_mode,
            input: self.input@,
            filter: self.filter@,
            selected_op: opt_view(self.selected_op),
            call_order: self.call_order,
            sort: self.sort,
        }
    }

    /// What is shown, as far as keys depend on it.
    pub open spec fn shown(self) -> Shown {
        Shown { runs: self.runs@.len(), ops: op_names(self.summary@), calls: self.calls@.len() }
    }

    /// Whether two states show the same.
    pub open spec fn same_tables(self, other: App) -> bool {
        &&& self.runs == other.runs
        &&& self.totals == other.totals
        &&& self.summary == other.summary
        &&& self.calls == other.calls
        &&& self.context == other.context
        &&& self.call_stats == other.call_stats
        &&& self.summary_limit == other.summary_limit
        &&& self.calls_limit == other.calls_limit
        &&& self.scroll == other.scroll
    }

    /// Whether the run and the rows that are selected are there, a row is selected
    /// in each table that has rows, the operations are sorted in one of the ways
    /// that are offered, and there is nothing to show where there is no run.
    pub open spec fn well_formed(self) -> bool {
        &&& is_offered(self.sort)
        &&& self.run_idx < self.runs@.len() || (self.run_idx == 0 && self.runs@.len() == 0)
        &&& is_selection(self.summary_selected, self.summary@.len())
        &&& is_selection(self.calls_selected, self.calls@.len())
        &&& self.runs@.len() == 0 ==> self.summary@.len() == 0 && self.calls@.len() == 0
            && self.context@.len() == 0 && self.call_stats == no_stats()
    }

    /// The viewer before anything was read but the runs.
    pub fn new(runs: Vec<RunRow>, summary_limit: i64, calls_limit: i64) -> (r: App)
        ensures
            r.well_formed(),
            r.runs == runs,
            r.run_idx == 0,
            r.totals == no_totals(),
            r.summary@.len() == 0,
            r.calls@.len() == 0,
            r.context@.len() == 0,
            r.call_stats == no_stats(),
            r.focus == Focus::Summary,
            r.input_mode == InputMode::Normal,
            r.input@.len() == 0,
            r.filter@.len() == 0,
            r.selected_op is None,
            r.call_order is None,
            r.sort == sort_of_key("device"@),
            r.summary_limit == summary_limit,
            r.calls_limit == calls_limit,
            r.scroll.key@.len() == 0,
            r.scroll.offset == 0,
            r.scroll.tick == 0,
    {
        App {
            runs,
            run_idx: 0,
            totals: TotalsRow::default(),
            summary: Vec::new(),
            calls: Vec::new(),
            context: Vec::new(),
            call_stats: CallStats::default(),
            summary_selected: None,
            calls_selected: None,
            focus: Focus::Summary,
            input_mode: InputMode::Normal,
            input: String::new(),
            filter: String::new(),
            selected_op: None,
            call_order: None,
            sort: SortSpec::from_key("device"),
            summary_limit,
            calls_limit,
            scroll: Scroll { key: String::new(), offset: 0, tick: 0 },
        }
    }

    fn selected_name(&self) -> (r: Option<String>)
        ensures
            opt_view(r) == op_at(self.shown(), self.summary_selected),
    {
        match self.summary_selected {
            Some(i) => if i < self.summary.len() {
                Some(self.summary[i].op_name.clone())
            } else {
                None
            },
            None => None,
        }
    }

    fn submit_input(&mut self) -> (r: Outcome)
        ensures
            final(self).same_tables(*old(self)),
            (final(self).control(), r) == submitted(old(self).control()),
    {
        let typed_text = trim(self.input.as_str());
        let reload = match self.input_mode {
            InputMode::Normal => Reload::Nothing,
            InputMode::Filter => {
                self.filter = typed_text;
                self.selected_op = None;
                self.call_order = None;
                Reload::Tables
            },
            InputMode::CallOrder => {
                if typed_text.as_str().is_empty() {
                    self.call_order = None;
                } else {
                    match parse_i64(typed_text.as_str()) {
                        Some(order) => {
                            self.call_order = Some(order);
                        },
                        None => {
                            return Outcome::BadCallOrder;
                        },
                    }
                }
                self.selected_op = None;
                Reload::Calls
            },
        };
        self.input_mode = InputMode::Normal;
        self.input = String::new();
        Outcome::Reload(reload)
    }

    fn prompt_key(&mut self, key: Key) -> (r: Outcome)
        ensures
            final(self).same_tables(*old(self)),
            (final(self).control(), r) == key_in_prompt(old(self).control(), key),
    {
        match key {
            Key::Esc => {
                self.input_mode = InputMode::Normal;
                self.input = String::new();
            },
            Key::Enter => {
                return self.submit_input();
            },
            Key::Backspace => {
                let chars = chars_of(self.input.as_str());
                if chars.len() > 0 {
                    let shorter = text_between(&chars, 0, chars.len() - 1);
                    assert(shorter@ =~= self.input@.drop_last());
                    self.input = shorter;
                }
            },
            Key::Char(ch) => {
                self.input.push(ch);
            },
            _ => {},
        }
        Outcome::Reload(Reload::Nothing)
    }

    fn step(&mut self, down: bool) -> (r: Outcome)
        ensures
            final(self).same_tables(*old(self)),
            (final(self).control(), r) == stepped(old(self).control(), old(self).shown(), down),
    {
        if self.focus == Focus::Summary {
            self.summary_selected = move_state(self.summary_selected, self.summary.len(), down);
            self.call_order = None;
            self.selected_op = self.selected_name();
            Outcome::Reload(Reload::Calls)
        } else {
            self.calls_selected = move_state(self.calls_selected, self.calls.len(), down);
            Outcome::Reload(Reload::Context)
        }
    }

    /// Goes on to the next run, where there is one.
    pub fn next_run(&mut self) -> (r: Outcome)
        requires
            old(self).well_formed(),
        ensures
            final(self).well_formed(),
            final(self).same_tables(*old(self)),
            (final(self).control(), r) == commanded(old(self).control(), old(self).shown(), 'r'),
    {
        if self.runs.len() == 0 {
            return Outcome::Reload(Reload::Nothing);
        }
        self.run_idx = (self.run_idx + 1) % self.runs.len();
        self.selected_op = None;
        self.call_order = None;
        Outcome::Reload(Reload::All)
    }

    /// Forgets the filter, the operation and the call that were asked for.
    pub fn clear_filters(&mut self) -> (r: Outcome)
        requires
            old(self).well_formed(),
        ensures
            final(self).well_formed(),
            final(self).same_tables(*old(self)),
            (final(self).control(), r) == commanded(old(self).control(), old(self).shown(), 'c'),
    {
        self.filter = String::new();
        self.selected_op = None;
        self.call_order = None;
        Outcome::Reload(Reload::Cleared)
    }

    fn select_summary_op(&mut self) -> (r: Outcome)
        requires
            old(self).focus == Focus::Summary,
            old(self).input_mode == InputMode::Normal,
        ensures
            final(self).same_tables(*old(self)),
            (final(self).control(), r) == pressed(
                old(self).control(),
                old(self).shown(),
                Key::Enter,
            ),
    {
        let name = self.selected_name();
        if name.is_none() {
            return Outcome::Reload(Reload::Nothing);
        }
        self.selected_op = name;
        self.call_order = None;
        self.focus = Focus::Calls;
        Outcome::Reload(Reload::Calls)
    }

    fn command(&mut self, key: char) -> (r: Outcome)
        requires
            old(self).well_formed(),
        ensures
            final(self).same_tables(*old(self)),
            (final(self).control(), r) == commanded(old(self).control(), old(self).shown(), key),
    {
        match key {
            'q' => Outcome::Quit,
            '/' => {
                self.input_mode = InputMode::Filter;
                self.input = self.filter.clone();
                Outcome::Reload(Reload::Nothing)
            },
            'g' => {
                self.input_mode = InputMode::CallOrder;
                self.input = match self.call_order {
                    Some(order) => i64_text(order),
                    None => String::new(),
                };
                Outcome::Reload(Reload::Nothing)
            },
            'c' => self.clear_filters(),
            'r' => self.next_run(),
            's' => {
                self.sort = self.sort.next();
                Outcome::Reload(Reload::Tables)
            },
            'j' => self.step(true),
            'k' => self.step(false),
            _ => Outcome::Reload(Reload::Nothing),
        }
    }

    /// Does what a key asks for, up to what is to be read again.
    pub fn on_key(&mut self, key: Key) -> (r: Outcome)
        requires
            old(self).well_formed(),
        ensures
            final(self).well_formed(),
            final(self).same_tables(*old(self)),
            (final(self).control(), r) == pressed(old(self).control(), old(self).shown(), key),
    {
        if self.input_mode != InputMode::Normal {
            return self.prompt_key(key);
        }
        match key {
            Key::Char(key) => self.command(key),
            Key::Tab => {
                self.focus = match self.focus {
                    Focus::Summary => Focus::Calls,
                    Focus::Calls => Focus::Summary,
                };
                Outcome::Reload(Reload::Nothing)
            },
            Key::Enter => if self.focus == Focus::Summary {
                self.select_summary_op()
            } else {
                Outcome::Reload(Reload::Nothing)
            },
            Key::Down => self.step(true),
            Key::Up => self.step(false),
            _ => Outcome::Reload(Reload::Nothing),
        }
    }
}

/// A part of what is shown that is read from the database.
#[derive(Clone, Copy, Debug, PartialEq, Eq, Structural)]
pub enum Load {
    Totals,
    Summary,
    /// The operations, with none asked for.
    ClearedSummary,
    Calls,
    Context,
    CallStats,
}

/// What is read one after another.
pub open spec fn loads_of(reload: Reload) -> Seq<Load> {
    match reload {
        Reload::Nothing => seq![],
        Reload::Context => seq![Load::Context],
        Reload::Calls => seq![Load::Calls, Load::Context, Load::CallStats],
        Reload::Tables => seq![Load::Summary, Load::Calls, Load::Context, Load::CallStats],
        Reload::Cleared => seq![
            Load::ClearedSummary,
            Load::Calls,
            Load::Context,
            Load::CallStats,
        ],
        Reload::All => seq![
            Load::Totals,
            Load::Summary,
            Load::Calls,
            Load::Context,
            Load::CallStats,
        ],
    }
}

/// What is read one after another.
pub fn loads(reload: Reload) -> (r: Vec<Load>)
    ensures
        r@ == loads_of(reload),
{
    let r: Vec<Load> = match reload {
        Reload::Nothing => Vec::new(),
        Reload::Context => vec![Load::Context],
        Reload::Calls => vec![Load::Calls, Load::Context, Load::CallStats],
        Reload::Tables => vec![Load::Summary, Load::Calls, Load::Context, Load::CallStats],
        Reload::Cleared => vec![
            Load::ClearedSummary,
            Load::Calls,
            Load::Context,
            Load::CallStats,
        ],
        Reload::All => vec![
            Load::Totals,
            Load::Summary,
            Load::Calls,
            Load::Context,
            Load::CallStats,
        ],
    };
    assert(r@ =~= loads_of(reload));
    r
}

/// What keys change, after a part was read and shown: rows with the names of
/// operations, and a number of calls. Operations select the first of them, unless
/// a call is asked for by its number, or nothing was to be asked for.
pub open spec fn loaded(c: Control, load: Load, ops: Seq<Seq<char>>, calls: nat) -> Control {
    match load {
        Load::Summary => Control {
            summary_selected: first_selected(ops.len()),
            selected_op: if c.call_order is Some {
                c.selected_op
            } else if ops.len() == 0 {
                None
            } else {
                Some(ops[0])
            },
            ..c
        },
        Load::ClearedSummary => Control { summary_selected: first_selected(ops.len()), ..c },
        Load::Calls => Control { calls_selected: first_selected(calls), ..c },
        _ => c,
    }
}

/// What keys change, after several parts were read and shown.
pub open spec fn all_loaded(
    c: Control,
    loads: Seq<Load>,
    ops: Seq<Seq<char>>,
    calls: nat,
) -> Control
    decreases loads.len(),
{
    if loads.len() == 0 {
        c
    } else {
        loaded(all_loaded(c, loads.drop_last(), ops, calls), loads.last(), ops, calls)
    }
}

/// What a part is read with.
#[derive(Debug)]
pub enum Ask {
    /// There is nothing to read.
    Nothing,
    Read(Statement),
    /// The numbers of the calls around the selected one are none.
    OutOfRange,
}

/// What a part is read with.
pub enum AskView {
    Nothing,
    Read(StatementView),
    OutOfRange,
}

impl View for Ask {
    type V = AskView;

    open spec fn view(&self) -> AskView {
        match *self {
            Ask::Nothing => AskView::Nothing,
            Ask::Read(statement) => AskView::Read(statement@),
            Ask::OutOfRange => AskView::OutOfRange,
        }
    }
}

/// How many calls are shown before and after the selected one.
pub const CONTEXT_RADIUS: i64 = 5;

impl App {
    /// The run that is shown.
    pub open spec fn shown_run(self) -> Option<i64> {
        if self.run_idx < self.runs@.len() {
            Some(self.runs@[self.run_idx as int].id)
        } else {
            None
        }
    }

    /// The number of the call that is selected.
    pub open spec fn selected_order(self) -> Option<i64> {
        match self.calls_selected {
            Some(i) => if i < self.calls@.len() {
                Some(self.calls@[i as int].call_order)
            } else {
                None
            },
            None => None,
        }
    }

    /// What a part of what is shown is read with.
    pub open spec fn asked(self, load: Load) -> AskView {
        match self.shown_run() {
            None => AskView::Nothing,
            Some(run_id) => match load {
                Load::Totals => AskView::Read(totals_statement(run_id)),
                Load::Summary | Load::ClearedSummary => AskView::Read(
                    summary_statement(
                        run_id,
                        non_empty(Some(self.filter@)),
                        self.sort,
                        self.summary_limit,
                    ),
                ),
                Load::Calls => AskView::Read(
                    calls_statement(
                        run_id,
                        non_empty(Some(self.filter@)),
                        opt_view(self.selected_op),
                        self.call_order,
                        self.calls_limit,
                        0,
                    ),
                ),
                Load::Context => match self.selected_order() {
                    None => AskView::Nothing,
                    Some(order) => if context_fits(order, CONTEXT_RADIUS) {
                        AskView::Read(call_context_statement(run_id, order, CONTEXT_RADIUS))
                    } else {
                        AskView::OutOfRange
                    },
                },
                Load::CallStats => AskView::Read(
                    call_stats_statement(
                        run_id,
                        non_empty(Some(self.filter@)),
                        opt_view(self.selected_op),
                        self.call_order,
                    ),
                ),
            },
        }
    }

    /// The run that is shown.
    pub fn run_id(&self) -> (r: Option<i64>)
        ensures
            r == self.shown_run(),
    {
        if self.run_idx < self.runs.len() {
            Some(self.runs[self.run_idx].id)
        } else {
            None
        }
    }

    /// The number of the call that is selected.
    pub fn selected_call(&self) -> (r: Option<i64>)
        ensures
            r == self.selected_order(),
    {
        match self.calls_selected {
            Some(i) => if i < self.calls.len() {
                Some(self.calls[i].call_order)
            } else {
                None
            },
            None => None,
        }
    }

    fn filter_text(&self) -> (r: Option<&str>)
        ensures
            crate::text::opt_str_view(r) == non_empty(Some(self.filter@)),
    {
        present(Some(self.filter.as_str()))
    }

    /// Begins to read a part of what is shown. The calls around the selected one
    /// and the statistics are gone until they are read.
    pub fn begin(&mut self, load: Load) -> (r: Ask)
        requires
            old(self).well_formed(),
        ensures
            final(self).well_formed(),
            final(self).control() == old(self).control(),
            r@ == old(self).asked(load),
            final(self).runs == old(self).runs,
            final(self).totals == old(self).totals,
            final(self).summary == old(self).summary,
            final(self).calls == old(self).calls,
            final(self).summary_limit == old(self).summary_limit,
            final(self).calls_limit == old(self).calls_limit,
            final(self).scroll == old(self).scroll,
            if load == Load::Context {
                final(self).context@.len() == 0
            } else {
                final(self).context == old(self).context
            },
            final(self).call_stats == (if load == Load::CallStats {
                no_stats()
            } else {
                old(self).call_stats
            }),
    {
        if load == Load::Context {
            self.context = Vec::new();
        }
        if load == Load::CallStats {
            self.call_stats = CallStats::default();
        }
        let run_id: i64 = match self.run_id() {
            Some(run_id) => run_id,
            None => {
                return Ask::Nothing;
            },
        };
        match load {
            Load::Totals => Ask::Read(totals(run_id)),
            Load::Summary | Load::ClearedSummary => Ask::Read(
                summary(run_id, self.filter_text(), self.sort, self.summary_limit),
            ),
            Load::Calls => Ask::Read(
                calls(
                    run_id,
                    self.filter_text(),
                    as_str(&self.selected_op),
                    self.call_order,
                    self.calls_limit,
                    0,
                ),
            ),
            Load::Context => match self.selected_call() {
                Some(order) => if has_context(order, CONTEXT_RADIUS) {
                    Ask::Read(call_context(run_id, order, CONTEXT_RADIUS))
                } else {
                    Ask::OutOfRange
                },
                None => Ask::Nothing,
            },
            Load::CallStats => Ask::Read(
                call_stats(
                    run_id,
                    self.filter_text(),
                    as_str(&self.selected_op),
                    self.call_order,
                ),
            ),
        }
    }

    /// Shows the sums of the run.
    pub fn show_totals(&mut self, totals: TotalsRow)
        requires
            old(self).well_formed(),
        ensures
            final(self).well_formed(),
            *final(self) == (App { totals, ..*old(self) }),
    {
        self.totals = totals;
    }

    fn sync_summary_selection(&mut self)
        ensures
            final(self).same_tables(*old(self)),
            final(self).control() == (Control {
                selected_op: if old(self).call_order is Some {
                    opt_view(old(self).selected_op)
                } else {
                    op_at(old(self).shown(), old(self).summary_selected)
                },
                ..old(self).control()
            }),
    {
        if self.call_order.is_some() {
            return;
        }
        self.selected_op = self.selected_name();
    }

    /// Shows operations. The first one is selected, unless a call is asked for by
    /// its number.
    pub fn show_summary(&mut self, rows: Vec<SummaryRow>)
        requires
            old(self).well_formed(),
            old(self).runs@.len() > 0,
        ensures
            final(self).well_formed(),
            final(self).same_tables(App { summary: rows, ..*old(self) }),
            final(self).control() == loaded(
                old(self).control(),
                Load::Summary,
                op_names(rows@),
                old(self).calls@.len(),
            ),
    {
        self.summary_selected = select_first(rows.len());
        self.summary = rows;
        self.sync_summary_selection();
    }

    /// Shows operations of which none is asked for. The first row is selected.
    pub fn show_cleared_summary(&mut self, rows: Vec<SummaryRow>)
        requires
            old(self).well_formed(),
            old(self).runs@.len() > 0,
        ensures
            final(self).well_formed(),
            *final(self) == (App {
                summary: rows,
                summary_selected: first_selected(rows@.len()),
                ..*old(self)
            }),
            final(self).control() == loaded(
                old(self).control(),
                Load::ClearedSummary,
                op_names(rows@),
                old(self).calls@.len(),
            ),
    {
        self.summary_selected = select_first(rows.len());
        self.summary = rows;
    }

    /// Shows calls. The first one is selected.
    pub fn show_calls(&mut self, rows: Vec<CallRow>)
        requires
            old(self).well_formed(),
            old(self).runs@.len() > 0,
        ensures
            final(self).well_formed(),
            *final(self) == (App {
                calls: rows,
                calls_selected: first_selected(rows@.len()),
                ..*old(self)
            }),
            final(self).control() == loaded(
                old(self).control(),
                Load::Calls,
                op_names(old(self).summary@),
                rows@.len(),
            ),
    {
        self.calls_selected = select_first(rows.len());
        self.calls = rows;
    }

    /// Shows the calls around the selected one.
    pub fn show_context(&mut self, rows: Vec<CallRow>)
        requires
            old(self).well_formed(),
            old(self).runs@.len() > 0,
        ensures
            final(self).well_formed(),
            *final(self) == (App { context: rows, ..*old(self) }),
    {
        self.context = rows;
    }

    /// Shows statistics.
    pub fn show_call_stats(&mut self, stats: CallStats)
        requires
            old(self).well_formed(),
            old(self).runs@.len() > 0,
        ensures
            final(self).well_formed(),
            *final(self) == (App { call_stats: stats, ..*old(self) }),
    {
        self.call_stats = stats;
    }
}

/// The first row of a table is selected where there is one, and a step keeps the
/// selection in the table.
pub proof fn selection_stays_in_the_table(selected: Option<usize>, len: nat, down: bool)
    requires
        len <= usize::MAX,
    ensures
        is_selection(first_selected(len), len),
        is_selection(moved(selected, len, down), len),
{
}

/// A step down and a step up lead back, unless the selection is at an end.
pub proof fn steps_lead_back(i: usize, len: nat)
    requires
        len <= usize::MAX,
        i < len,
    ensures
        i + 1 < len ==> moved(moved(Some(i), len, true), len, false) == Some(i),
        i > 0 ==> moved(moved(Some(i), len, false), len, true) == Some(i),
{
}

/// Only the key to quit quits, and not while something is typed.
pub proof fn only_q_quits(c: Control, shown: Shown, key: Key)
    ensures
        pressed(c, shown, key).1 == Outcome::Quit <==> c.input_mode == InputMode::Normal && key
            == Key::Char('q'),
{
}

/// While something is typed, no key but those that end it changes anything but
/// what is typed, and nothing is read.
pub proof fn typing_changes_only_the_input(c: Control, shown: Shown, key: Key)
    requires
        c.input_mode != InputMode::Normal,
        key != Key::Enter,
        key != Key::Esc,
    ensures
        pressed(c, shown, key).0 == (Control { input: pressed(c, shown, key).0.input, ..c }),
        pressed(c, shown, key).1 == Outcome::Reload(Reload::Nothing),
{
}

/// A prompt that is opened and left changes nothing.
pub proof fn leaving_a_prompt_changes_nothing(c: Control, shown: Shown, key: char)
    requires
        c.input_mode == InputMode::Normal,
        c.input == Seq::<char>::empty(),
        key == '/' || key == 'g',
    ensures
        pressed(pressed(c, shown, Key::Char(key)).0, shown, Key::Esc).0 == c,
        pressed(pressed(c, shown, Key::Char(key)).0, shown, Key::Esc).1 == Outcome::Reload(
            Reload::Nothing,
        ),
{
}

proof fn lemma_number_is_trimmed(n: i64)
    ensures
        trimmed(int_text(n as int)) == int_text(n as int),
        int_text(n as int).len() > 0,
{
    let s = int_text(n as int);
    if n < 0 {
        lemma_nat_text_value((-n) as nat);
        assert(s.last() == nat_text((-n) as nat).last());
    } else {
        lemma_nat_text_value(n as nat);
    }
}

/// The prompt for the number of a call begins with the one that is asked for, and
/// confirming it asks for the same call.
pub proof fn confirming_keeps_the_call(c: Control, shown: Shown)
    requires
        c.input_mode == InputMode::Normal,
    ensures
        ({
            let confirmed = pressed(pressed(c, shown, Key::Char('g')).0, shown, Key::Enter);
            &&& confirmed.0 == (Control { selected_op: None, input: Seq::empty(), ..c })
            &&& confirmed.1 == Outcome::Reload(Reload::Calls)
        }),
{
    if let Some(n) = c.call_order {
        lemma_number_is_trimmed(n);
        decimal_round_trip(n);
    } else {
        trimming_settles(Seq::empty());
    }
}

/// The prompt for the filter begins with the filter, and confirming a filter that
/// was typed once keeps it.
pub proof fn confirming_keeps_the_filter(c: Control, shown: Shown)
    requires
        c.input_mode == InputMode::Filter,
    ensures
        ({
            let once = pressed(c, shown, Key::Enter).0;
            let twice = pressed(pressed(once, shown, Key::Char('/')).0, shown, Key::Enter).0;
            &&& once.filter == trimmed(c.input)
            &&& twice.filter == once.filter
        }),
{
    trimming_settles(c.input);
}

/// The key to clear forgets the filter, the operation and the call that were
/// asked for, and nothing of it comes back when the tables are read again, whatever
/// they hold: `calling` is the viewer when the calls are asked for, and `after` the
/// one when all is read. So the calls of all operations are shown.
pub proof fn clearing_forgets_what_was_asked_for(
    before: App,
    ops: Seq<Seq<char>>,
    calls: nat,
    calling: App,
    after: App,
)
    requires
        before.input_mode == InputMode::Normal,
        ({
            let (cleared, _) = pressed(before.control(), before.shown(), Key::Char('c'));
            let loads = loads_of(Reload::Cleared);
            &&& calling.control() == all_loaded(cleared, loads.take(1), ops, calls)
            &&& after.control() == all_loaded(cleared, loads, ops, calls)
        }),
    ensures
        pressed(before.control(), before.shown(), Key::Char('c')).1 == Outcome::Reload(
            Reload::Cleared,
        ),
        loads_of(Reload::Cleared)[1] == Load::Calls,
        after.filter@ == Seq::<char>::empty(),
        after.selected_op is None,
        after.call_order is None,
        after.calls_of() == "all kernels"@,
        after.control().run_idx == before.control().run_idx,
        after.sort == before.sort,
        after.focus == before.focus,
        after.summary_selected == first_selected(ops.len()),
        after.calls_selected == first_selected(calls),
        calling.asked(Load::Calls) == (match calling.shown_run() {
            Some(run_id) => AskView::Read(
                calls_statement(run_id, None, None, None, calling.calls_limit, 0),
            ),
            None => AskView::Nothing,
        }),
{
    let (cleared, _) = pressed(before.control(), before.shown(), Key::Char('c'));
    let loads = loads_of(Reload::Cleared);
    reveal_with_fuel(all_loaded, 5);
    assert(loads.take(1).drop_last() =~= Seq::<Load>::empty());
    assert(loads.take(1).last() == Load::ClearedSummary);
    assert(loads.drop_last() =~= seq![Load::ClearedSummary, Load::Calls, Load::Context]);
    assert(loads.drop_last().drop_last() =~= seq![Load::ClearedSummary, Load::Calls]);
    assert(loads.drop_last().drop_last().drop_last() =~= loads.take(1));
}

/// Reading again changes neither the run, nor the order of the operations, nor the
/// filter, nor the call that is asked for, nor what is typed.
pub proof fn reading_keeps_what_was_asked_for(
    c: Control,
    loads: Seq<Load>,
    ops: Seq<Seq<char>>,
    calls: nat,
)
    ensures
        ({
            let after = all_loaded(c, loads, ops, calls);
            after == (Control {
                summary_selected: after.summary_selected,
                calls_selected: after.calls_selected,
                selected_op: after.selected_op,
                ..c
            })
        }),
    decreases loads.len(),
{
    if loads.len() > 0 {
        reading_keeps_what_was_asked_for(c, loads.drop_last(), ops, calls);
    }
}

/// The state after a key was pressed some times, and what it asks for was read and
/// shown each time. What is shown after each time is given.
pub open spec fn pressed_times(
    c: Control,
    key: Key,
    reload: Reload,
    shown: spec_fn(nat) -> Shown,
    presses: nat,
) -> Control
    decreases presses,
{
    if presses == 0 {
        c
    } else {
        let last = (presses - 1) as nat;
        all_loaded(
            pressed(pressed_times(c, key, reload, shown, last), shown(last), key).0,
            loads_of(reload),
            shown(presses).ops,
            shown(presses).calls,
        )
    }
}

proof fn lemma_sorted_times(c: Control, shown: spec_fn(nat) -> Shown, presses: nat, at: int)
    requires
        c.input_mode == InputMode::Normal,
        0 <= at < 8,
        c.sort == all_sorts()[at],
    ensures
        ({
            let after = pressed_times(c, Key::Char('s'), Reload::Tables, shown, presses);
            &&& after.sort == all_sorts()[(at + presses) % 8]
            &&& after.input_mode == InputMode::Normal
            &&& after.filter == c.filter
            &&& after.call_order == c.call_order
            &&& after.run_idx == c.run_idx
        }),
    decreases presses,
{
    if presses > 0 {
        let last = (presses - 1) as nat;
        lemma_sorted_times(c, shown, last, at);
        let before = pressed_times(c, Key::Char('s'), Reload::Tables, shown, last);
        sorts_form_a_cycle((at + presses - 1) % 8);
        reading_keeps_what_was_asked_for(
            pressed(before, shown(last), Key::Char('s')).0,
            loads_of(Reload::Tables),
            shown(presses).ops,
            shown(presses).calls,
        );
    }
}

/// The key for the next order goes on to the next one, with the filter and the call
/// that is asked for unchanged, and the operations are read in it. Eight times lead
/// back to the order that was there, whatever is read in between.
pub proof fn orders_go_round(app: App, next: App, shown: spec_fn(nat) -> Shown)
    requires
        app.well_formed(),
        app.input_mode == InputMode::Normal,
        next.control() == pressed(app.control(), app.shown(), Key::Char('s')).0,
        next.same_tables(app),
    ensures
        pressed(app.control(), app.shown(), Key::Char('s')).1 == Outcome::Reload(Reload::Tables),
        next.sort == sort_after_key(app.sort.key@),
        next.filter@ == app.filter@,
        next.call_order == app.call_order,
        next.asked(Load::Summary) == (match app.shown_run() {
            Some(run_id) => AskView::Read(
                summary_statement(
                    run_id,
                    non_empty(Some(app.filter@)),
                    sort_after_key(app.sort.key@),
                    app.summary_limit,
                ),
            ),
            None => AskView::Nothing,
        }),
        ({
            let round = pressed_times(
                app.control(),
                Key::Char('s'),
                Reload::Tables,
                shown,
                8,
            );
            &&& round.sort == app.sort
            &&& round.filter == app.filter@
            &&& round.call_order == app.call_order
        }),
{
    let at = choose|i: int| 0 <= i < 8 && app.sort == #[trigger] all_sorts()[i];
    lemma_sorted_times(app.control(), shown, 8, at);
    assert((at + 8) % 8 == at);
    assert(next.control().run_idx == app.control().run_idx);
}

/// The key for the next run shows all of it: its sums, its operations, and, when
/// they were read (`calling`), the calls of the first of them. The runs, the filter
/// and the order stay. Where there is no run, nothing changes.
pub proof fn next_run_is_read_whole(
    app: App,
    next: App,
    ops: Seq<Seq<char>>,
    calls: nat,
    calling: App,
)
    requires
        app.well_formed(),
        app.input_mode == InputMode::Normal,
        next.control() == pressed(app.control(), app.shown(), Key::Char('r')).0,
        next.same_tables(app),
        calling.control() == all_loaded(
            next.control(),
            loads_of(Reload::All).take(2),
            ops,
            calls,
        ),
        calling.runs == app.runs,
        calling.calls_limit == app.calls_limit,
    ensures
        next.runs == app.runs,
        next.filter@ == app.filter@,
        next.sort == app.sort,
        app.runs@.len() == 0 ==> {
            &&& next.control() == app.control()
            &&& pressed(app.control(), app.shown(), Key::Char('r')).1 == Outcome::Reload(
                Reload::Nothing,
            )
        },
        app.runs@.len() > 0 ==> {
            let at = (app.run_idx + 1) % (app.runs@.len() as int);
            let run_id = app.runs@[at].id;
            &&& pressed(app.control(), app.shown(), Key::Char('r')).1 == Outcome::Reload(
                Reload::All,
            )
            &&& next.run_idx == at
            &&& next.selected_op is None
            &&& next.call_order is None
            &&& next.asked(Load::Totals) == AskView::Read(totals_statement(run_id))
            &&& next.asked(Load::Summary) == AskView::Read(
                summary_statement(
                    run_id,
                    non_empty(Some(app.filter@)),
                    app.sort,
                    app.summary_limit,
                ),
            )
            &&& loads_of(Reload::All)[2] == Load::Calls
            &&& calling.asked(Load::Calls) == AskView::Read(
                calls_statement(
                    run_id,
                    non_empty(Some(app.filter@)),
                    if ops.len() == 0 {
                        None
                    } else {
                        Some(ops[0])
                    },
                    None,
                    app.calls_limit,
                    0,
                ),
            )
        },
{
    let first = loads_of(Reload::All).take(2);
    reveal_with_fuel(all_loaded, 3);
    assert(first.drop_last() =~= seq![Load::Totals]);
    assert(first.drop_last().drop_last() =~= Seq::<Load>::empty());
    assert(calling.control().run_idx == next.control().run_idx);
}

/// Switching between the tables twice leads back.
pub proof fn switching_twice_leads_back(c: Control, shown: Shown)
    requires
        c.input_mode == InputMode::Normal,
    ensures
        pressed(pressed(c, shown, Key::Tab).0, shown, Key::Tab).0 == c,
{
}

/// The run that is shown after the key for the next one was pressed some times.
pub open spec fn run_after(c: Control, shown: spec_fn(nat) -> Shown, presses: nat) -> int {
    pressed_times(c, Key::Char('r'), Reload::All, shown, presses).run_idx
}

proof fn lemma_run_after(c: Control, shown: spec_fn(nat) -> Shown, runs: nat, presses: nat)
    requires
        c.input_mode == InputMode::Normal,
        0 <= c.run_idx < runs,
        forall|i: nat| (#[trigger] shown(i)).runs == runs,
    ensures
        pressed_times(c, Key::Char('r'), Reload::All, shown, presses).input_mode
            == InputMode::Normal,
        run_after(c, shown, presses) == (c.run_idx + presses) % (runs as int),
    decreases presses,
{
    let n = runs as int;
    if presses == 0 {
        vstd::arithmetic::div_mod::lemma_small_mod(c.run_idx as nat, runs);
    } else {
        let last = (presses - 1) as nat;
        let before = pressed_times(c, Key::Char('r'), Reload::All, shown, last);
        lemma_run_after(c, shown, runs, last);
        assert(shown(last).runs == runs);
        reading_keeps_what_was_asked_for(
            pressed(before, shown(last), Key::Char('r')).0,
            loads_of(Reload::All),
            shown(presses).ops,
            shown(presses).calls,
        );
        vstd::arithmetic::div_mod::lemma_add_mod_noop(c.run_idx + last, 1, n);
        vstd::arithmetic::div_mod::lemma_add_mod_noop(before.run_idx, 1, n);
        vstd::arithmetic::div_mod::lemma_mod_twice(c.run_idx + last, n);
    }
}

/// Going on to the next run leads through all runs, and back to the first one
/// after as many steps as there are runs, whatever is read in between.
pub proof fn runs_go_round(c: Control, shown: spec_fn(nat) -> Shown, runs: nat, target: int)
    requires
        c.input_mode == InputMode::Normal,
        0 <= c.run_idx < runs,
        0 <= target < runs,
        forall|i: nat| (#[trigger] shown(i)).runs == runs,
    ensures
        run_after(c, shown, runs) == c.run_idx,
        exists|presses: nat| presses < runs && #[trigger] run_after(c, shown, presses) == target,
{
    let n = runs as int;
    lemma_run_after(c, shown, runs, runs);
    vstd::arithmetic::div_mod::lemma_mod_add_multiples_vanish(c.run_idx, n);
    vstd::arithmetic::div_mod::lemma_small_mod(c.run_idx as nat, runs);
    let presses = if target >= c.run_idx {
        (target - c.run_idx) as nat
    } else {
        (target - c.run_idx + n) as nat
    };
    lemma_run_after(c, shown, runs, presses);
    vstd::arithmetic::div_mod::lemma_mod_add_multiples_vanish(target, n);
    vstd::arithmetic::div_mod::lemma_small_mod(target as nat, runs);
    assert(run_after(c, shown, presses) == target);
}

/// Whatever is read again, the calls around the selected one and the statistics
/// are read after the calls.
pub proof fn calls_bring_their_context(reload: Reload, i: int)
    requires
        0 <= i < loads_of(reload).len(),
        loads_of(reload)[i] == Load::Calls,
    ensures
        i + 2 < loads_of(reload).len(),
        loads_of(reload)[i + 1] == Load::Context,
        loads_of(reload)[i + 2] == Load::CallStats,
{
}

/// A call that is selected is shown among those with numbers up to five away from
/// its own, and is one of them.
pub proof fn selected_call_is_in_its_context(app: App)
    requires
        app.well_formed(),
        app.selected_order() is Some,
        app.selected_order()->0 >= 1,
        context_fits(app.selected_order()->0, CONTEXT_RADIUS),
    ensures
        app.shown_run() is Some,
        ({
            let order = app.selected_order()->0;
            &&& app.asked(Load::Context) == AskView::Read(
                call_context_statement(app.shown_run()->0, order, CONTEXT_RADIUS),
            )
            &&& order - 5 <= context_first(order, CONTEXT_RADIUS) <= order
            &&& context_last(order, CONTEXT_RADIUS) == order + 5
        }),
{
}

/// The row after a step down or up, in a table with rows: the next or the previous one,
/// or the same where there is none. Where nothing was selected, the step is from the
/// first row.
pub open spec fn is_step(from: Option<usize>, to: Option<usize>, len: nat, down: bool) -> bool {
    let at: int = match from {
        Some(i) => i as int,
        None => 0,
    };
    if len == 0 {
        to is None
    } else {
        &&& to is Some
        &&& down && at + 1 < len ==> to->0 == at + 1
        &&& down && at + 1 >= len ==> to->0 == len - 1
        &&& !down && at == 0 ==> to->0 == 0
        &&& !down && 0 < at <= len ==> to->0 == at - 1
        &&& !down && at > len ==> to->0 == len - 1
    }
}

/// The keys to move select the next or the previous row of the table that they move
/// in. Among the operations, the one that is selected is asked for, and its calls are
/// read; among the calls, those around the selected one are read. Nothing else changes.
pub proof fn steps_select_rows(c: Control, shown: Shown, down: bool)
    requires
        c.input_mode == InputMode::Normal,
        shown.ops.len() <= usize::MAX,
        shown.calls <= usize::MAX,
    ensures
        ({
            let arrow = if down {
                Key::Down
            } else {
                Key::Up
            };
            let letter = if down {
                'j'
            } else {
                'k'
            };
            let (after, outcome) = pressed(c, shown, arrow);
            &&& pressed(c, shown, Key::Char(letter)) == (after, outcome)
            &&& c.focus == Focus::Summary ==> {
                &&& is_step(c.summary_selected, after.summary_selected, shown.ops.len(), down)
                &&& shown.ops.len() > 0 ==> after.selected_op == Some(
                    shown.ops[after.summary_selected->0 as int],
                )
                &&& shown.ops.len() == 0 ==> after.selected_op is None
                &&& after.call_order is None
                &&& after == (Control {
                    summary_selected: after.summary_selected,
                    selected_op: after.selected_op,
                    call_order: None,
                    ..c
                })
                &&& outcome == Outcome::Reload(Reload::Calls)
            }
            &&& c.focus == Focus::Calls ==> {
                &&& is_step(c.calls_selected, after.calls_selected, shown.calls, down)
                &&& after == (Control { calls_selected: after.calls_selected, ..c })
                &&& outcome == Outcome::Reload(Reload::Context)
            }
        }),
{
}

/// The key to enter asks for the selected operation and its calls, and the keys move
/// among the calls then. It does nothing among the calls, or where no operation is
/// selected.
pub proof fn entering_asks_for_the_selected_operation(c: Control, shown: Shown)
    requires
        c.input_mode == InputMode::Normal,
    ensures
        ({
            let (after, outcome) = pressed(c, shown, Key::Enter);
            if c.focus == Focus::Summary && c.summary_selected is Some
                && c.summary_selected->0 < shown.ops.len() {
                &&& after == (Control {
                    selected_op: Some(shown.ops[c.summary_selected->0 as int]),
                    call_order: None,
                    focus: Focus::Calls,
                    ..c
                })
                &&& outcome == Outcome::Reload(Reload::Calls)
            } else {
                after == c && outcome == Outcome::Reload(Reload::Nothing)
            }
        }),
{
}

/// The keys for a prompt open it with what is asked for, the key for the tables
/// changes to the other one, and the key to sort goes on to the next order. A key that
/// is for nothing does nothing.
pub proof fn keys_do_what_they_are_for(c: Control, shown: Shown, key: Key)
    requires
        c.input_mode == InputMode::Normal,
    ensures
        ({
            let (after, outcome) = pressed(c, shown, key);
            let nothing = Outcome::Reload(Reload::Nothing);
            &&& key == Key::Char('/') ==> after == (Control {
                input_mode: InputMode::Filter,
                input: c.filter,
                ..c
            }) && outcome == nothing
            &&& key == Key::Char('g') ==> {
                &&& after == (Control {
                    input_mode: InputMode::CallOrder,
                    input: after.input,
                    ..c
                })
                &&& c.call_order is Some ==> i64_value(after.input) == c.call_order
                &&& c.call_order is None ==> after.input.len() == 0
                &&& outcome == nothing
            }
            &&& key == Key::Tab ==> after == (Control { focus: after.focus, ..c }) && after.focus
                != c.focus && outcome == nothing
            &&& key == Key::Char('s') ==> after == (Control {
                sort: sort_after_key(c.sort.key@),
                ..c
            }) && outcome == Outcome::Reload(Reload::Tables)
            &&& key == Key::Esc || key == Key::Backspace || key == Key::Other || (key is Char
                && key->Char_0 != 'q' && key->Char_0 != '/' && key->Char_0 != 'g' && key->Char_0
                != 'c' && key->Char_0 != 'r' && key->Char_0 != 's' && key->Char_0 != 'j'
                && key->Char_0 != 'k') ==> after == c && outcome == nothing
        }),
{
    if let Some(n) = c.call_order {
        decimal_round_trip(n);
    }
}

/// What is typed grows by each character, and shrinks by the last one. Leaving the
/// prompt forgets it. Confirming a filter looks for the names that hold it, without
/// the space around it; confirming a number asks for the call that has it, and nothing
/// typed for none. Either way no operation is asked for any more. What is no number is
/// refused, and the prompt stays as it is.
pub proof fn prompts_take_what_is_typed(c: Control, shown: Shown, ch: char)
    requires
        c.input_mode != InputMode::Normal,
    ensures
        pressed(c, shown, Key::Char(ch)) == (
            (Control { input: c.input + seq![ch], ..c }),
            Outcome::Reload(Reload::Nothing),
        ),
        c.input.len() > 0 ==> pressed(c, shown, Key::Backspace) == (
            (Control { input: c.input.take(c.input.len() - 1), ..c }),
            Outcome::Reload(Reload::Nothing),
        ),
        c.input.len() == 0 ==> pressed(c, shown, Key::Backspace) == (
            c,
            Outcome::Reload(Reload::Nothing),
        ),
        pressed(c, shown, Key::Esc) == (
            (Control { input_mode: InputMode::Normal, input: Seq::empty(), ..c }),
            Outcome::Reload(Reload::Nothing),
        ),
        c.input_mode == InputMode::Filter ==> pressed(c, shown, Key::Enter) == (
            (Control {
                input_mode: InputMode::Normal,
                input: Seq::empty(),
                filter: trimmed(c.input),
                selected_op: None,
                call_order: None,
                ..c
            }),
            Outcome::Reload(Reload::Tables),
        ),
        c.input_mode == InputMode::CallOrder && (trimmed(c.input).len() == 0 || i64_value(
            trimmed(c.input),
        ) is Some) ==> pressed(c, shown, Key::Enter) == (
            (Control {
                input_mode: InputMode::Normal,
                input: Seq::empty(),
                selected_op: None,
                call_order: if trimmed(c.input).len() == 0 {
                    None
                } else {
                    i64_value(trimmed(c.input))
                },
                ..c
            }),
            Outcome::Reload(Reload::Calls),
        ),
        c.input_mode == InputMode::CallOrder && trimmed(c.input).len() > 0 && i64_value(
            trimmed(c.input),
        ) is None ==> pressed(c, shown, Key::Enter) == (c, Outcome::BadCallOrder),
{
    assert(c.input.push(ch) =~= c.input + seq![ch]);
    if c.input.len() > 0 {
        assert(c.input.drop_last() =~= c.input.take(c.input.len() - 1));
    }
}

/// What is read again is all that it names, and the parts that others depend on come
/// first: the sums of the run, then the operations, then the calls.
pub proof fn reloads_read_what_they_name(reload: Reload)
    ensures
        ({
            let loads = loads_of(reload);
            &&& reload == Reload::Nothing ==> loads.len() == 0
            &&& reload == Reload::Context ==> loads.len() == 1 && loads[0] == Load::Context
            &&& reload == Reload::Calls ==> loads.len() == 3 && loads[0] == Load::Calls
            &&& reload == Reload::Tables ==> loads.len() == 4 && loads[0] == Load::Summary
                && loads[1] == Load::Calls
            &&& reload == Reload::Cleared ==> loads.len() == 4 && loads[0] == Load::ClearedSummary
                && loads[1] == Load::Calls
            &&& reload == Reload::All ==> loads.len() == 5 && loads[0] == Load::Totals && loads[1]
                == Load::Summary && loads[2] == Load::Calls
        }),
{
}

/// Operations that are shown have the first of them selected and asked for, unless a
/// call is asked for by its number: what was asked for then stays. Calls that are shown
/// have the first of them selected. Nothing else changes.
pub proof fn first_rows_are_selected(c: Control, ops: Seq<Seq<char>>, calls: nat)
    ensures
        ({
            let with_ops = loaded(c, Load::Summary, ops, calls);
            let with_calls = loaded(c, Load::Calls, ops, calls);
            &&& ops.len() > 0 ==> with_ops.summary_selected == Some(0usize)
            &&& ops.len() == 0 ==> with_ops.summary_selected is None
            &&& c.call_order is Some ==> with_ops.selected_op == c.selected_op
            &&& c.call_order is None && ops.len() > 0 ==> with_ops.selected_op == Some(ops[0])
            &&& c.call_order is None && ops.len() == 0 ==> with_ops.selected_op is None
            &&& with_ops == (Control {
                summary_selected: with_ops.summary_selected,
                selected_op: with_ops.selected_op,
                ..c
            })
            &&& calls > 0 ==> with_calls.calls_selected == Some(0usize)
            &&& calls == 0 ==> with_calls.calls_selected is None
            &&& with_calls == (Control { calls_selected: with_calls.calls_selected, ..c })
            &&& loaded(c, Load::Totals, ops, calls) == c
            &&& loaded(c, Load::Context, ops, calls) == c
            &&& loaded(c, Load::CallStats, ops, calls) == c
        }),
{
}

} // verus!
