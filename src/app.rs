//! The viewer's state and how each command changes it.

use vstd::prelude::*;

use crate::config::{lookup, AppConfig};
use crate::diff::{max_nat, Diff, DiffView};
use crate::keys::{key_name, Key};
use crate::message::Message;
use crate::navigation::{
    next_row_index, next_selection, previous_row_index, previous_selection, DiffState,
};
use crate::parser::parse_model;

verus! {

/// Whether the viewer keeps going.
#[derive(Clone, Copy, Debug, PartialEq, Eq, Structural)]
pub enum RunningState {
    Running,
    Done,
}

impl Default for RunningState {
    fn default() -> (r: RunningState)
        ensures
            r == RunningState::Running,
    {
        RunningState::Running
    }
}

/// A tick counter, the console's log lines, and the diff on display.
#[derive(Clone, Debug)]
pub struct AppState {
    counter_tick: u64,
    console: Vec<String>,
    diff: Diff,
}

/// The state of an [`AppState`], as mathematical values.
pub struct AppStateView {
    pub ticks: nat,
    pub console: Seq<Seq<char>>,
    pub diff: DiffView,
}

pub open spec fn strings_view(v: Seq<String>) -> Seq<Seq<char>> {
    v.map_values(|s: String| s@)
}

impl View for AppState {
    type V = AppStateView;

    closed spec fn view(&self) -> AppStateView {
        AppStateView {
            ticks: self.counter_tick as nat,
            console: strings_view(self.console@),
            diff: self.diff@,
        }
    }
}

impl AppState {
    /// A state showing `diff`, with no tick counted and an empty console.
    pub fn new(diff: Diff) -> (r: AppState)
        ensures
            r@ == (AppStateView { ticks: 0, console: Seq::empty(), diff: diff@ }),
    {
        let r = AppState { counter_tick: 0, console: Vec::new(), diff };
        assert(r@.console =~= Seq::<Seq<char>>::empty());
        r
    }

    /// Counts one tick.
    pub fn incr_tick(&mut self)
        requires
            old(self)@.ticks < u64::MAX,
        ensures
            final(self)@ == (AppStateView { ticks: old(self)@.ticks + 1, ..old(self)@ }),
    {
        self.counter_tick = self.counter_tick + 1;
    }

    /// The ticks counted so far.
    pub fn count_tick(&self) -> (r: Option<u64>)
        ensures
            r matches Some(n) && n == self@.ticks,
    {
        Some(self.counter_tick)
    }

    /// The console's log lines.
    pub fn console(&self) -> (r: Option<&Vec<String>>)
        ensures
            r matches Some(v) && strings_view(v@) == self@.console,
    {
        Some(&self.console)
    }

    /// The diff on display.
    pub fn diff(&self) -> (r: Option<&Diff>)
        ensures
            r matches Some(d) && d@ == self@.diff,
    {
        Some(&self.diff)
    }

    /// Appends a line to the console.
    pub fn send_to_console(&mut self, content: String)
        ensures
            final(self)@ == (AppStateView {
                console: old(self)@.console.push(content@),
                ..old(self)@
            }),
    {
        self.console.push(content);
        assert(strings_view(self.console@) =~= old(self)@.console.push(content@));
    }

    fn set_diff(&mut self, diff: Diff)
        ensures
            final(self)@ == (AppStateView { diff: diff@, ..old(self)@ }),
    {
        self.diff = diff;
    }
}

/// The whole viewer: whether it runs, its key map, the diff and console,
/// the two row cursors, and the selected console line.
pub struct App {
    running_state: RunningState,
    config: AppConfig,
    state: AppState,
    diff_state: DiffState,
    console_state: Option<usize>,
}

/// The state of an [`App`], as mathematical values.
pub struct AppView {
    pub running: RunningState,
    pub keymap: Seq<(Seq<char>, Message)>,
    pub state: AppStateView,
    pub selection: (Option<usize>, Option<usize>),
    pub console_selection: Option<usize>,
}

impl View for App {
    type V = AppView;

    closed spec fn view(&self) -> AppView {
        AppView {
            running: self.running_state,
            keymap: self.config.keymap_view(),
            state: self.state@,
            selection: self.diff_state@,
            console_selection: self.console_state,
        }
    }
}

/// The console line to select: the last one (the first when there is none).
pub open spec fn last_console_line(v: AppView) -> Option<usize> {
    Some((max_nat(1, v.state.console.len()) - 1) as usize)
}

/// Both columns hold at least one row.
pub open spec fn has_rows(d: DiffView) -> bool {
    d.old.len() != 0 && d.new.len() != 0
}

/// Both cursors on the last row of the longer column; unchanged when both
/// columns are empty.
pub open spec fn last_row_selection(v: AppView) -> (Option<usize>, Option<usize>) {
    let old_len = v.state.diff.old.len();
    let new_len = v.state.diff.new.len();
    if old_len == 0 && new_len == 0 {
        v.selection
    } else {
        let last = (max_nat(old_len, new_len) - 1) as usize;
        (Some(last), Some(last))
    }
}

/// The state after a command: the console selection moves to the last line,
/// then the cursors move (each against the length of its own column) or the
/// viewer stops. The jump to the last row puts both cursors on the last row
/// of the longer column, and does nothing when both columns are empty.
pub open spec fn after_message(v: AppView, msg: Message) -> AppView {
    let w = AppView { console_selection: last_console_line(v), ..v };
    let old_len = v.state.diff.old.len();
    let new_len = v.state.diff.new.len();
    match msg {
        Message::PrevRow => AppView {
            selection: (
                previous_selection(v.selection.0, old_len),
                previous_selection(v.selection.1, new_len),
            ),
            ..w
        },
        Message::NextRow => AppView {
            selection: (next_selection(v.selection.0, old_len), next_selection(v.selection.1, new_len)),
            ..w
        },
        Message::LastRow => AppView { selection: last_row_selection(v), ..w },
        Message::FirstRow => AppView { selection: (Some(0usize), Some(0usize)), ..w },
        Message::Quit => AppView { running: RunningState::Done, ..w },
    }
}

impl App {
    /// A running viewer with the given configuration, an empty diff and
    /// console, and both cursors on the first row.
    pub fn new(config: AppConfig) -> (r: App)
        ensures
            r@.running == RunningState::Running,
            r@.keymap == config.keymap_view(),
            r@.state.ticks == 0,
            r@.state.console == Seq::<Seq<char>>::empty(),
            r@.state.diff == (DiffView { old: Seq::empty(), new: Seq::empty() }),
            r@.selection == (Some(0usize), Some(0usize)),
            r@.console_selection == Some(0usize),
    {
        let mut app = App {
            running_state: RunningState::Running,
            config,
            state: AppState::new(Diff::default()),
            diff_state: DiffState::new(),
            console_state: None,
        };
        app.handle_console();
        app
    }

    /// Selects the last console line.
    pub fn handle_console(&mut self)
        ensures
            final(self)@ == (AppView { console_selection: last_console_line(old(self)@), ..old(self)@ }),
    {
        let console_length = self.state.console.len();
        let index = if console_length > 1 {
            console_length - 1
        } else {
            0
        };
        self.console_state = Some(index);
    }

    /// The selected console line.
    pub fn console_state(&self) -> (r: Option<usize>)
        ensures
            r == self@.console_selection,
    {
        self.console_state
    }

    /// The console's log lines.
    pub fn console(&self) -> (r: &Vec<String>)
        ensures
            strings_view(r@) == self@.state.console,
    {
        &self.state.console
    }

    /// Appends a line to the console.
    pub fn send_to_console(&mut self, content: String)
        ensures
            final(self)@ == (AppView {
                state: AppStateView { console: old(self)@.state.console.push(content@), ..old(self)@.state },
                ..old(self)@
            }),
    {
        self.state.send_to_console(content);
    }

    /// The configuration.
    pub fn config(&self) -> (r: &AppConfig)
        ensures
            r.keymap_view() == self@.keymap,
    {
        &self.config
    }

    /// The two row cursors.
    pub fn diff_state(&self) -> (r: &DiffState)
        ensures
            r@ == self@.selection,
    {
        &self.diff_state
    }

    /// The diff on display, when both of its columns hold rows.
    pub fn diff(&self) -> (r: Option<&Diff>)
        ensures
            match r {
                Some(d) => d@ == self@.state.diff && has_rows(d@),
                None => !has_rows(self@.state.diff),
            },
    {
        if self.state.diff.old_diff().len() != 0 && self.state.diff.current_diff().len() != 0 {
            Some(&self.state.diff)
        } else {
            None
        }
    }

    /// Parses `diff_string`, puts the result on display, and puts both
    /// cursors back on the first row.
    pub fn set_diff(&mut self, diff_string: &str)
        requires
            diff_string@.len() < usize::MAX,
        ensures
            final(self)@ == (AppView {
                state: AppStateView { diff: parse_model(diff_string@), ..old(self)@.state },
                selection: (Some(0usize), Some(0usize)),
                ..old(self)@
            }),
    {
        self.state.set_diff(Diff::parse_diff(diff_string));
        self.diff_state.reset_row_state();
    }

    /// Whether the viewer keeps going.
    pub fn running_state(&self) -> (r: &RunningState)
        ensures
            *r == self@.running,
    {
        &self.running_state
    }

    /// The command bound to a key press, if any.
    pub fn handle_key(&self, key: &Key) -> (r: Option<Message>)
        ensures
            r == lookup(self@.keymap, key_name(*key)),
    {
        let name = key.name();
        self.config.keymap().get(name.as_str())
    }

    fn quit(&mut self)
        ensures
            final(self)@ == (AppView { running: RunningState::Done, ..old(self)@ }),
    {
        self.running_state = RunningState::Done;
    }

    fn go_to_last_row(&mut self)
        ensures
            final(self)@ == (AppView { selection: last_row_selection(old(self)@), ..old(self)@ }),
    {
        let old_len = self.state.diff.old_diff().len();
        let current_len = self.state.diff.current_diff().len();
        if old_len == 0 && current_len == 0 {
            return;
        }
        let last_row = self.state.diff.longest_diff_len();
        self.diff_state.select(Some(last_row), Some(last_row));
    }

    fn next_row(&mut self)
        ensures
            final(self)@ == (AppView {
                selection: (
                    next_selection(old(self)@.selection.0, old(self)@.state.diff.old.len()),
                    next_selection(old(self)@.selection.1, old(self)@.state.diff.new.len()),
                ),
                ..old(self)@
            }),
    {
        let old_row = next_row_index(self.diff_state.old_diff(), self.state.diff.old_diff().len());
        let current_row = next_row_index(
            self.diff_state.current_diff(),
            self.state.diff.current_diff().len(),
        );
        self.diff_state.select(old_row, current_row);
    }

    fn previous_row(&mut self)
        ensures
            final(self)@ == (AppView {
                selection: (
                    previous_selection(old(self)@.selection.0, old(self)@.state.diff.old.len()),
                    previous_selection(old(self)@.selection.1, old(self)@.state.diff.new.len()),
                ),
                ..old(self)@
            }),
    {
        let old_row = previous_row_index(
            self.diff_state.old_diff(),
            self.state.diff.old_diff().len(),
        );
        let current_row = previous_row_index(
            self.diff_state.current_diff(),
            self.state.diff.current_diff().len(),
        );
        self.diff_state.select(old_row, current_row);
    }

    fn reset_row_state(&mut self)
        ensures
            final(self)@ == (AppView { selection: (Some(0usize), Some(0usize)), ..old(self)@ }),
    {
        self.diff_state.reset_row_state();
    }
}

/// Applies a command to the viewer. No command leads to a further one.
pub fn update(app: &mut App, msg: Message) -> (r: Option<Message>)
    ensures
        r is None,
        final(app)@ == after_message(old(app)@, msg),
{
    app.handle_console();
    match msg {
        Message::PrevRow => app.previous_row(),
        Message::NextRow => app.next_row(),
        Message::LastRow => app.go_to_last_row(),
        Message::FirstRow => app.reset_row_state(),
        Message::Quit => app.quit(),
    }
    None
}

/// On a diff with no rows, moving up or down selects nothing in either
/// column, and jumping to the last row leaves the cursors where they are.
pub proof fn lemma_empty_diff_navigation(v: AppView, msg: Message)
    requires
        v.state.diff.old.len() == 0,
        v.state.diff.new.len() == 0,
    ensures
        msg == Message::NextRow || msg == Message::PrevRow ==> after_message(v, msg).selection == (
        None::<usize>, None::<usize>),
        msg == Message::LastRow ==> after_message(v, msg).selection == v.selection,
{
}

} // verus!
