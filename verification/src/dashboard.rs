//! The state of the dashboard and the rules by which key presses and refresh
//! ticks change it. Outside work (reading files, asking the registry, running
//! the listing tools) is done by the caller: every rule here says what the
//! state becomes and what the caller is to do next.

use crate::history::{bounded, push_bounded, series_of, MetricHistory, MetricSample};
use crate::logs::{
    content_view, initial_lines, initial_view, tail_lines, tail_view, MAX_INITIAL_LINES,
    MAX_LOG_LINES,
};
use crate::ports::port_lists;
use crate::process::{ProcessView, ResourceUsage};
use crate::scroll::{page_down, page_up, PAGE_STEP};
use crate::text::texts;
use std::collections::HashMap;
use vstd::prelude::*;

verus! {

broadcast use vstd::std_specs::hash::group_hash_axioms;

/// The time between two refresh ticks, in milliseconds.
pub const TICK_MILLIS: u64 = 1000;

/// Bytes per unit in which resident memory is recorded.
pub const BYTES_PER_KB: u64 = 1024;

/// The largest resident memory that a sample can record.
pub const MAX_MEMORY_KB: u64 = u64::MAX / 1024;

/// The views of the right-hand panel.
#[derive(Clone, Copy, Debug, PartialEq, Eq, Structural)]
pub enum Tab {
    Overview,
    Logs,
    InitialLogs,
}

/// The two log streams of a process.
#[derive(Clone, Copy, Debug, PartialEq, Eq, Structural)]
pub enum LogStream {
    Stdout,
    Stderr,
}

/// A key as the terminal reports it.
#[derive(Clone, Copy, Debug, PartialEq, Eq, Structural)]
pub enum KeyCode {
    Char(char),
    Esc,
    Up,
    Down,
    Tab,
    PageUp,
    PageDown,
    Other,
}

/// A key press: the key, and whether the control key was held.
#[derive(Clone, Copy, Debug, PartialEq, Eq, Structural)]
pub struct KeyPress {
    pub code: KeyCode,
    pub ctrl: bool,
}

/// What a key press asks for.
#[derive(Clone, Copy, Debug, PartialEq, Eq, Structural)]
pub enum Command {
    Quit,
    SelectPrevious,
    SelectNext,
    NextTab,
    ShowStdout,
    ShowStderr,
    PageUp,
    PageDown,
    Restart,
    Stop,
    Start,
    Flush,
    Ignore,
}

/// What the caller is to do after a key press or a tick.
#[derive(Clone, Copy, Debug, PartialEq, Eq, Structural)]
pub enum Action {
    Nothing,
    /// Read the log file that `log_source` names and hand it to
    /// `refresh_logs`.
    RefreshLogs,
    /// Read the two log files that `initial_log_sources` names and hand them
    /// to `refresh_initial_logs`.
    RefreshInitialLogs,
    /// Ask the registry to restart a process.
    Restart { id: usize, reset_env: bool },
    /// Ask the registry to stop a process.
    Stop { id: usize },
    /// Ask the registry to flush the logs of a process.
    Flush { id: usize },
}

/// The key bindings.
pub open spec fn command_of(press: KeyPress) -> Command {
    match press.code {
        KeyCode::Char(c) => if c == 'q' {
            Command::Quit
        } else if c == 'c' && press.ctrl {
            Command::Quit
        } else if c == 'k' {
            Command::SelectPrevious
        } else if c == 'j' {
            Command::SelectNext
        } else if c == '1' {
            Command::ShowStdout
        } else if c == '2' {
            Command::ShowStderr
        } else if c == 'r' {
            Command::Restart
        } else if c == 's' {
            Command::Stop
        } else if c == 'S' {
            Command::Start
        } else if c == 'f' {
            Command::Flush
        } else {
            Command::Ignore
        },
        KeyCode::Esc => Command::Quit,
        KeyCode::Up => Command::SelectPrevious,
        KeyCode::Down => Command::SelectNext,
        KeyCode::Tab => Command::NextTab,
        KeyCode::PageUp => Command::PageUp,
        KeyCode::PageDown => Command::PageDown,
        KeyCode::Other => Command::Ignore,
    }
}

/// What a key press asks for, by the key bindings.
pub fn command_for(press: KeyPress) -> (c: Command)
    ensures
        c == command_of(press),
{
    match press.code {
        KeyCode::Char(c) => {
            if c == 'q' {
                Command::Quit
            } else if c == 'c' && press.ctrl {
                Command::Quit
            } else if c == 'k' {
                Command::SelectPrevious
            } else if c == 'j' {
                Command::SelectNext
            } else if c == '1' {
                Command::ShowStdout
            } else if c == '2' {
                Command::ShowStderr
            } else if c == 'r' {
                Command::Restart
            } else if c == 's' {
                Command::Stop
            } else if c == 'S' {
                Command::Start
            } else if c == 'f' {
                Command::Flush
            } else {
                Command::Ignore
            }
        },
        KeyCode::Esc => Command::Quit,
        KeyCode::Up => Command::SelectPrevious,
        KeyCode::Down => Command::SelectNext,
        KeyCode::Tab => Command::NextTab,
        KeyCode::PageUp => Command::PageUp,
        KeyCode::PageDown => Command::PageDown,
        KeyCode::Other => Command::Ignore,
    }
}

/// The tab that follows `tab`: overview, logs, initial logs, and round
/// again.
pub open spec fn next_tab(tab: Tab) -> Tab {
    match tab {
        Tab::Overview => Tab::Logs,
        Tab::Logs => Tab::InitialLogs,
        Tab::InitialLogs => Tab::Overview,
    }
}

/// The refresh that keeps the view of `tab` up to date; the overview has no
/// log view.
pub open spec fn refresh_for(tab: Tab) -> Action {
    match tab {
        Tab::Overview => Action::Nothing,
        Tab::Logs => Action::RefreshLogs,
        Tab::InitialLogs => Action::RefreshInitialLogs,
    }
}

/// The dashboard as contracts see it.
#[verifier::ext_equal]
pub struct DashboardModel {
    pub processes: Seq<ProcessView>,
    pub selected: usize,
    pub tab: Tab,
    pub log_stream: LogStream,
    pub log_lines: Seq<Seq<char>>,
    pub log_scroll: usize,
    pub initial_out_lines: Seq<Seq<char>>,
    pub initial_err_lines: Seq<Seq<char>>,
    pub history: Map<usize, Seq<MetricSample>>,
    pub ports: Map<i64, Seq<u16>>,
    pub should_quit: bool,
}

/// No sample records more memory than `MAX_MEMORY_KB`.
pub open spec fn memory_in_range(h: Map<usize, Seq<MetricSample>>) -> bool {
    forall|id: usize, k: int|
        h.contains_key(id) && 0 <= k < h[id].len() ==> (#[trigger] h[id][k]).resident_memory_kb
            <= MAX_MEMORY_KB
}

/// What holds of the dashboard at all times: the selection points at a
/// process unless there is none, and every buffer is within its capacity.
pub open spec fn valid(m: DashboardModel) -> bool {
    &&& m.processes.len() == 0 || m.selected < m.processes.len()
    &&& m.log_lines.len() <= MAX_LOG_LINES
    &&& m.initial_out_lines.len() <= MAX_INITIAL_LINES
    &&& m.initial_err_lines.len() <= MAX_INITIAL_LINES
    &&& bounded(m.history)
    &&& memory_in_range(m.history)
}

/// The id of the selected process, if the selection points at one.
pub open spec fn selected_id_of(m: DashboardModel) -> Option<usize> {
    if m.selected < m.processes.len() {
        Some(m.processes[m.selected as int].id)
    } else {
        None
    }
}

/// The scroll offset a page further back, held at the largest value.
pub open spec fn scroll_up(scroll: usize) -> usize {
    if scroll + PAGE_STEP <= usize::MAX {
        (scroll + PAGE_STEP) as usize
    } else {
        usize::MAX
    }
}

/// The scroll offset a page further on, held at 0.
pub open spec fn scroll_down(scroll: usize) -> usize {
    if scroll >= PAGE_STEP {
        (scroll - PAGE_STEP) as usize
    } else {
        0
    }
}

/// The dashboard after a command, and what the caller is to do.
pub open spec fn step(m: DashboardModel, c: Command) -> (DashboardModel, Action) {
    match c {
        Command::Quit => (DashboardModel { should_quit: true, ..m }, Action::Nothing),
        Command::SelectPrevious => if m.selected > 0 {
            (
                DashboardModel { selected: (m.selected - 1) as usize, log_scroll: 0, ..m },
                refresh_for(m.tab),
            )
        } else {
            (m, Action::Nothing)
        },
        Command::SelectNext => if m.selected + 1 < m.processes.len() {
            (
                DashboardModel { selected: (m.selected + 1) as usize, log_scroll: 0, ..m },
                refresh_for(m.tab),
            )
        } else {
            (m, Action::Nothing)
        },
        Command::NextTab => (
            DashboardModel { tab: next_tab(m.tab), log_scroll: 0, ..m },
            refresh_for(next_tab(m.tab)),
        ),
        Command::ShowStdout => if m.tab == Tab::Logs {
            (
                DashboardModel { log_stream: LogStream::Stdout, log_scroll: 0, ..m },
                Action::RefreshLogs,
            )
        } else {
            (m, Action::Nothing)
        },
        Command::ShowStderr => if m.tab == Tab::Logs {
            (
                DashboardModel { log_stream: LogStream::Stderr, log_scroll: 0, ..m },
                Action::RefreshLogs,
            )
        } else {
            (m, Action::Nothing)
        },
        Command::PageUp => (
            DashboardModel { log_scroll: scroll_up(m.log_scroll), ..m },
            Action::Nothing,
        ),
        Command::PageDown => (
            DashboardModel { log_scroll: scroll_down(m.log_scroll), ..m },
            Action::Nothing,
        ),
        Command::Restart | Command::Start => match selected_id_of(m) {
            Some(id) => (m, Action::Restart { id, reset_env: false }),
            None => (m, Action::Nothing),
        },
        Command::Stop => match selected_id_of(m) {
            Some(id) => (m, Action::Stop { id }),
            None => (m, Action::Nothing),
        },
        Command::Flush => match selected_id_of(m) {
            Some(id) => (
                DashboardModel { log_lines: Seq::empty(), log_scroll: 0, ..m },
                Action::Flush { id },
            ),
            None => (m, Action::Nothing),
        },
        Command::Ignore => (m, Action::Nothing),
    }
}

/// Every command keeps the dashboard valid.
pub proof fn lemma_step_valid(m: DashboardModel, c: Command)
    requires
        valid(m),
    ensures
        valid(step(m, c).0),
{
}

/// The selection after the list of processes was replaced by one of `len`
/// entries: moved to the last entry when it points past it, left as it is
/// when the new list is empty.
pub open spec fn clamp_selection(selected: usize, len: nat) -> usize {
    if selected >= len && len > 0 {
        (len - 1) as usize
    } else {
        selected
    }
}

/// When the list shrinks so that the selection points past its end, the
/// selection moves to the last entry; a selection inside the list stays. An
/// empty list leaves the selection as it is.
pub proof fn lemma_selection_clamp(selected: usize, len: nat)
    ensures
        len > 0 ==> clamp_selection(selected, len) < len,
        len > 0 && selected >= len ==> clamp_selection(selected, len) == len - 1,
        selected < len ==> clamp_selection(selected, len) == selected,
        len == 0 ==> clamp_selection(selected, len) == selected,
{
}

/// The sample of a process that does not run or cannot be inspected.
pub open spec fn zero_sample() -> MetricSample {
    MetricSample { cpu_percent_scaled: 0, resident_memory_kb: 0 }
}

/// The sample that a tick records for `p`: what the resource query told of
/// it if it runs and the query succeeded, a flat zero else.
pub open spec fn reading_of(p: ProcessView, usage: Map<i64, ResourceUsage>) -> MetricSample {
    if p.running && usage.contains_key(p.pid) {
        MetricSample {
            cpu_percent_scaled: usage[p.pid].cpu_percent_scaled,
            resident_memory_kb: usage[p.pid].resident_bytes / BYTES_PER_KB,
        }
    } else {
        zero_sample()
    }
}

/// The history after one sample was recorded for each process of `list`, in
/// list order.
pub open spec fn sampled(
    h: Map<usize, Seq<MetricSample>>,
    list: Seq<ProcessView>,
    usage: Map<i64, ResourceUsage>,
) -> Map<usize, Seq<MetricSample>>
    decreases list.len(),
{
    if list.len() == 0 {
        h
    } else {
        let before = sampled(h, list.drop_last(), usage);
        let p = list.last();
        before.insert(p.id, push_bounded(series_of(before, p.id), reading_of(p, usage)))
    }
}

/// No two processes of `list` share an id.
pub open spec fn distinct_ids(list: Seq<ProcessView>) -> bool {
    forall|i: int, j: int| 0 <= i < j < list.len() ==> list[i].id != list[j].id
}

/// A tick keeps the history within its bounds.
pub proof fn lemma_sampled_valid(
    h: Map<usize, Seq<MetricSample>>,
    list: Seq<ProcessView>,
    usage: Map<i64, ResourceUsage>,
)
    requires
        bounded(h),
        memory_in_range(h),
    ensures
        bounded(sampled(h, list, usage)),
        memory_in_range(sampled(h, list, usage)),
    decreases list.len(),
{
    if list.len() > 0 {
        lemma_sampled_valid(h, list.drop_last(), usage);
        let before = sampled(h, list.drop_last(), usage);
        let p = list.last();
        let s = series_of(before, p.id);
        let x = reading_of(p, usage);
        let after = sampled(h, list, usage);
        assert(x.resident_memory_kb <= MAX_MEMORY_KB);
        assert forall|id: usize, k: int|
            after.contains_key(id) && 0 <= k < after[id].len() implies (
        #[trigger] after[id][k]).resident_memory_kb <= MAX_MEMORY_KB by {
            if id == p.id {
                let t = push_bounded(s, x);
                if k < t.len() - 1 {
                    if s.len() >= crate::history::HISTORY_LEN {
                        assert(t[k] == s[k + 1]);
                    } else {
                        assert(t[k] == s[k]);
                    }
                    assert(before.contains_key(p.id));
                }
            } else {
                assert(after[id] == before[id]);
            }
        }
    }
}

/// A process that does not run is sampled as a flat zero, whatever the
/// resource readings hold.
pub proof fn lemma_stopped_reads_zero(p: ProcessView, usage: Map<i64, ResourceUsage>)
    requires
        !p.running,
    ensures
        reading_of(p, usage) == zero_sample(),
{
}

/// A tick records exactly one sample for every listed process, running or
/// not, so each series advances by one per tick and never has a gap. Series
/// of processes that are not listed stay as they are. This is said of lists
/// in which no id occurs twice: an id that is listed twice is sampled twice.
pub proof fn lemma_zero_fill(
    h: Map<usize, Seq<MetricSample>>,
    list: Seq<ProcessView>,
    usage: Map<i64, ResourceUsage>,
)
    requires
        distinct_ids(list),
    ensures
        forall|i: int|
            0 <= i < list.len() ==> series_of(sampled(h, list, usage), (#[trigger] list[i]).id)
                == push_bounded(series_of(h, list[i].id), reading_of(list[i], usage)),
        forall|id: usize|
            (forall|i: int| 0 <= i < list.len() ==> (#[trigger] list[i]).id != id) ==> series_of(
                sampled(h, list, usage),
                id,
            ) == series_of(h, id),
    decreases list.len(),
{
    if list.len() > 0 {
        let front = list.drop_last();
        let p = list.last();
        assert(distinct_ids(front)) by {
            assert forall|i: int, j: int| 0 <= i < j < front.len() implies front[i].id
                != front[j].id by {
                assert(front[i] == list[i] && front[j] == list[j]);
            }
        }
        lemma_zero_fill(h, front, usage);
        let before = sampled(h, front, usage);
        let after = sampled(h, list, usage);
        assert(series_of(before, p.id) == series_of(h, p.id)) by {
            assert forall|i: int| 0 <= i < front.len() implies (#[trigger] front[i]).id
                != p.id by {
                assert(front[i] == list[i]);
            }
        }
        assert forall|i: int| 0 <= i < list.len() implies series_of(
            after,
            (#[trigger] list[i]).id,
        ) == push_bounded(series_of(h, list[i].id), reading_of(list[i], usage)) by {
            if i < front.len() {
                assert(front[i] == list[i]);
                assert(series_of(after, list[i].id) == series_of(before, front[i].id));
            }
        }
        assert forall|id: usize|
            (forall|i: int| 0 <= i < list.len() ==> (#[trigger] list[i]).id != id) implies series_of(
            after,
            id,
        ) == series_of(h, id) by {
            assert(list[list.len() - 1].id != id);
            assert forall|i: int| 0 <= i < front.len() implies (#[trigger] front[i]).id != id by {
                assert(front[i] == list[i]);
            }
        }
    }
}

/// The dashboard after a tick handed it the new process list, the resource
/// readings by PID, and the port table.
pub open spec fn refreshed(
    m: DashboardModel,
    list: Seq<ProcessView>,
    usage: Map<i64, ResourceUsage>,
    ports: Map<i64, Seq<u16>>,
) -> DashboardModel {
    DashboardModel {
        processes: list,
        selected: clamp_selection(m.selected, list.len()),
        ports,
        history: sampled(m.history, list, usage),
        ..m
    }
}

/// Where the log view of the selected process reads from.
#[derive(Clone, Debug, PartialEq, Eq)]
pub struct LogSource {
    pub path: String,
}

/// Where the two views from the start of the selected process's run read
/// from: each file from its recorded offset on.
#[derive(Clone, Debug, PartialEq, Eq)]
pub struct InitialLogSources {
    pub out_path: String,
    pub out_offset: u64,
    pub err_path: String,
    pub err_offset: u64,
}

/// The whole state of the dashboard. It is made once, changed in place by
/// key presses and ticks, and read by the panels.
pub struct DashboardState {
    processes: Vec<ProcessView>,
    selected: usize,
    tab: Tab,
    log_stream: LogStream,
    log_lines: Vec<String>,
    log_scroll: usize,
    initial_out_lines: Vec<String>,
    initial_err_lines: Vec<String>,
    history: MetricHistory,
    port_map: HashMap<i64, Vec<u16>>,
    should_quit: bool,
}

impl View for DashboardState {
    type V = DashboardModel;

    closed spec fn view(&self) -> DashboardModel {
        DashboardModel {
            processes: self.processes@,
            selected: self.selected,
            tab: self.tab,
            log_stream: self.log_stream,
            log_lines: texts(self.log_lines@),
            log_scroll: self.log_scroll,
            initial_out_lines: texts(self.initial_out_lines@),
            initial_err_lines: texts(self.initial_err_lines@),
            history: self.history@,
            ports: port_lists(self.port_map@),
            should_quit: self.should_quit,
        }
    }
}

impl DashboardState {
    /// Well-formedness: what `valid` says of the state.
    pub open spec fn wf(&self) -> bool {
        valid(self@)
    }

    /// A dashboard that knows of no process yet: the first process on the
    /// overview tab is selected, the standard output is the active stream,
    /// and every buffer is empty.
    pub fn new() -> (s: Self)
        ensures
            s.wf(),
            s@ == (DashboardModel {
                processes: Seq::empty(),
                selected: 0,
                tab: Tab::Overview,
                log_stream: LogStream::Stdout,
                log_lines: Seq::empty(),
                log_scroll: 0,
                initial_out_lines: Seq::empty(),
                initial_err_lines: Seq::empty(),
                history: Map::empty(),
                ports: Map::empty(),
                should_quit: false,
            }),
    {
        let s = DashboardState {
            processes: Vec::new(),
            selected: 0,
            tab: Tab::Overview,
            log_stream: LogStream::Stdout,
            log_lines: Vec::new(),
            log_scroll: 0,
            initial_out_lines: Vec::new(),
            initial_err_lines: Vec::new(),
            history: MetricHistory::new(),
            port_map: HashMap::new(),
            should_quit: false,
        };
        assert(s@.log_lines =~= Seq::<Seq<char>>::empty());
        assert(s@.initial_out_lines =~= Seq::<Seq<char>>::empty());
        assert(s@.initial_err_lines =~= Seq::<Seq<char>>::empty());
        assert(s@.ports =~= Map::<i64, Seq<u16>>::empty());
        s
    }

    /// Takes in what a tick found: the new list of processes, the resource
    /// readings of the running ones by PID, and the port table. The list and
    /// the table replace the old ones, the selection is moved back into the
    /// list, and every listed process gets one more sample.
    pub fn refresh_processes(
        &mut self,
        processes: Vec<ProcessView>,
        usage: &HashMap<i64, ResourceUsage>,
        ports: HashMap<i64, Vec<u16>>,
    )
        requires
            old(self).wf(),
        ensures
            final(self).wf(),
            final(self)@ == refreshed(old(self)@, processes@, usage@, port_lists(ports@)),
    {
        let mut i: usize = 0;
        assert(processes@.take(0) =~= Seq::<ProcessView>::empty());
        while i < processes.len()
            invariant
                i <= processes.len(),
                self.history.wf(),
                self.history@ == sampled(old(self).history@, processes@.take(i as int), usage@),
                self.processes == old(self).processes,
                self.selected == old(self).selected,
                self.tab == old(self).tab,
                self.log_stream == old(self).log_stream,
                self.log_lines == old(self).log_lines,
                self.log_scroll == old(self).log_scroll,
                self.initial_out_lines == old(self).initial_out_lines,
                self.initial_err_lines == old(self).initial_err_lines,
                self.should_quit == old(self).should_quit,
            decreases processes.len() - i,
        {
            let p = &processes[i];
            let ghost read = processes@.take(i as int + 1);
            assert(read.drop_last() =~= processes@.take(i as int));
            assert(read.last() == *p);
            let mut cpu: u64 = 0;
            let mut mem: u64 = 0;
            if p.running {
                match usage.get(&p.pid) {
                    Some(u) => {
                        cpu = u.cpu_percent_scaled;
                        mem = u.resident_bytes / BYTES_PER_KB;
                    },
                    None => {},
                }
            }
            self.history.sample(p.id, cpu, mem);
            i += 1;
        }
        assert(processes@.take(i as int) =~= processes@);
        proof {
            lemma_sampled_valid(old(self)@.history, processes@, usage@);
        }
        if self.selected >= processes.len() && processes.len() > 0 {
            self.selected = processes.len() - 1;
        }
        self.processes = processes;
        self.port_map = ports;
    }

    /// Applies a key press: changes the state as `step` says and tells the
    /// caller what to do.
    pub fn handle_key(&mut self, press: KeyPress) -> (action: Action)
        requires
            old(self).wf(),
        ensures
            final(self).wf(),
            final(self)@ == step(old(self)@, command_of(press)).0,
            action == step(old(self)@, command_of(press)).1,
    {
        let command = command_for(press);
        proof {
            lemma_step_valid(self@, command);
        }
        let action = match command {
            Command::Quit => {
                self.should_quit = true;
                Action::Nothing
            },
            Command::SelectPrevious => {
                if self.selected > 0 {
                    self.selected = self.selected - 1;
                    self.log_scroll = 0;
                    self.refresh_action()
                } else {
                    Action::Nothing
                }
            },
            Command::SelectNext => {
                let count: usize = self.processes.len();
                if self.selected < count && self.selected + 1 < count {
                    self.selected = self.selected + 1;
                    self.log_scroll = 0;
                    self.refresh_action()
                } else {
                    Action::Nothing
                }
            },
            Command::NextTab => {
                self.tab = match self.tab {
                    Tab::Overview => Tab::Logs,
                    Tab::Logs => Tab::InitialLogs,
                    Tab::InitialLogs => Tab::Overview,
                };
                self.log_scroll = 0;
                self.refresh_action()
            },
            Command::ShowStdout => {
                if self.tab == Tab::Logs {
                    self.log_stream = LogStream::Stdout;
                    self.log_scroll = 0;
                    Action::RefreshLogs
                } else {
                    Action::Nothing
                }
            },
            Command::ShowStderr => {
                if self.tab == Tab::Logs {
                    self.log_stream = LogStream::Stderr;
                    self.log_scroll = 0;
                    Action::RefreshLogs
                } else {
                    Action::Nothing
                }
            },
            Command::PageUp => {
                self.log_scroll = page_up(self.log_scroll);
                Action::Nothing
            },
            Command::PageDown => {
                self.log_scroll = page_down(self.log_scroll);
                Action::Nothing
            },
            Command::Restart | Command::Start => {
                match self.selected_id() {
                    Some(id) => Action::Restart { id, reset_env: false },
                    None => Action::Nothing,
                }
            },
            Command::Stop => {
                match self.selected_id() {
                    Some(id) => Action::Stop { id },
                    None => Action::Nothing,
                }
            },
            Command::Flush => {
                match self.selected_id() {
                    Some(id) => {
                        self.log_lines = Vec::new();
                        self.log_scroll = 0;
                        assert(self@.log_lines =~= Seq::<Seq<char>>::empty());
                        Action::Flush { id }
                    },
                    None => Action::Nothing,
                }
            },
            Command::Ignore => Action::Nothing,
        };
        assert(self@ =~= step(old(self)@, command).0);
        action
    }

    /// The refresh that the active tab needs.
    pub fn refresh_action(&self) -> (action: Action)
        ensures
            action == refresh_for(self@.tab),
    {
        match self.tab {
            Tab::Overview => Action::Nothing,
            Tab::Logs => Action::RefreshLogs,
            Tab::InitialLogs => Action::RefreshInitialLogs,
        }
    }

    /// A refresh tick: takes in what it found, as `refresh_processes` does,
    /// and asks for the refresh of the log view that is on screen, if one
    /// is.
    pub fn tick(
        &mut self,
        processes: Vec<ProcessView>,
        usage: &HashMap<i64, ResourceUsage>,
        ports: HashMap<i64, Vec<u16>>,
    ) -> (action: Action)
        requires
            old(self).wf(),
        ensures
            final(self).wf(),
            final(self)@ == refreshed(old(self)@, processes@, usage@, port_lists(ports@)),
            action == refresh_for(old(self)@.tab),
    {
        self.refresh_processes(processes, usage, ports);
        self.refresh_action()
    }

    /// The id of the selected process.
    pub fn selected_id(&self) -> (r: Option<usize>)
        ensures
            r == selected_id_of(self@),
    {
        if self.selected < self.processes.len() {
            Some(self.processes[self.selected].id)
        } else {
            None
        }
    }

    /// The selected process.
    pub fn selected_process(&self) -> (r: Option<&ProcessView>)
        ensures
            match r {
                Some(p) => self@.selected < self@.processes.len() && *p
                    == self@.processes[self@.selected as int],
                None => self@.selected >= self@.processes.len(),
            },
    {
        if self.selected < self.processes.len() {
            Some(&self.processes[self.selected])
        } else {
            None
        }
    }

    /// The file that the log view reads: the active stream of the selected
    /// process. There is none while no process is known.
    pub fn log_source(&self) -> (r: Option<LogSource>)
        requires
            self.wf(),
        ensures
            match r {
                Some(src) => self@.processes.len() > 0 && src.path@ == (match self@.log_stream {
                    LogStream::Stdout => self@.processes[self@.selected as int].logs.out@,
                    LogStream::Stderr => self@.processes[self@.selected as int].logs.error@,
                }),
                None => self@.processes.len() == 0,
            },
    {
        if self.processes.len() == 0 {
            return None;
        }
        let p = &self.processes[self.selected];
        let path = match self.log_stream {
            LogStream::Stdout => p.logs.out.clone(),
            LogStream::Stderr => p.logs.error.clone(),
        };
        Some(LogSource { path })
    }

    /// Rebuilds the log view from the bytes of the file that `log_source`
    /// names; `None` stands for a file that could not be opened. While no
    /// process is known the view is empty whatever is handed in.
    pub fn refresh_logs(&mut self, content: Option<&[u8]>)
        requires
            old(self).wf(),
        ensures
            final(self).wf(),
            final(self)@ == (DashboardModel {
                log_lines: if old(self)@.processes.len() == 0 {
                    Seq::empty()
                } else {
                    tail_view(content_view(content))
                },
                ..old(self)@
            }),
    {
        if self.processes.len() == 0 {
            self.log_lines = Vec::new();
            assert(self@.log_lines =~= Seq::<Seq<char>>::empty());
            return ;
        }
        self.log_lines = tail_lines(content);
    }

    /// The two files that the views from the start of the run read, each
    /// with the offset to read it from. There is none while no process is
    /// known.
    pub fn initial_log_sources(&self) -> (r: Option<InitialLogSources>)
        requires
            self.wf(),
        ensures
            match r {
                Some(src) => {
                    &&& self@.processes.len() > 0
                    &&& src.out_path@ == self@.processes[self@.selected as int].logs.out@
                    &&& src.err_path@ == self@.processes[self@.selected as int].logs.error@
                    &&& src.out_offset
                        == self@.processes[self@.selected as int].initial_logs.start_pos_out
                    &&& src.err_offset
                        == self@.processes[self@.selected as int].initial_logs.start_pos_error
                },
                None => self@.processes.len() == 0,
            },
    {
        if self.processes.len() == 0 {
            return None;
        }
        let p = &self.processes[self.selected];
        Some(
            InitialLogSources {
                out_path: p.logs.out.clone(),
                out_offset: p.initial_logs.start_pos_out,
                err_path: p.logs.error.clone(),
                err_offset: p.initial_logs.start_pos_error,
            },
        )
    }

    /// Rebuilds the two views from the start of the run, each from what its
    /// file holds from its offset on; `None` stands for a file that could
    /// not be opened or sought, and leaves that view empty without touching
    /// the other. While no process is known both views are empty.
    pub fn refresh_initial_logs(&mut self, out: Option<&[u8]>, err: Option<&[u8]>)
        requires
            old(self).wf(),
        ensures
            final(self).wf(),
            final(self)@ == (DashboardModel {
                initial_out_lines: if old(self)@.processes.len() == 0 {
                    Seq::empty()
                } else {
                    initial_view(content_view(out))
                },
                initial_err_lines: if old(self)@.processes.len() == 0 {
                    Seq::empty()
                } else {
                    initial_view(content_view(err))
                },
                ..old(self)@
            }),
    {
        if self.processes.len() == 0 {
            self.initial_out_lines = Vec::new();
            self.initial_err_lines = Vec::new();
            assert(self@.initial_out_lines =~= Seq::<Seq<char>>::empty());
            assert(self@.initial_err_lines =~= Seq::<Seq<char>>::empty());
            return ;
        }
        self.initial_out_lines = initial_lines(out);
        self.initial_err_lines = initial_lines(err);
    }

    pub fn processes(&self) -> (r: &Vec<ProcessView>)
        ensures
            r@ == self@.processes,
    {
        &self.processes
    }

    pub fn selected(&self) -> (r: usize)
        ensures
            r == self@.selected,
    {
        self.selected
    }

    pub fn tab(&self) -> (r: Tab)
        ensures
            r == self@.tab,
    {
        self.tab
    }

    pub fn log_stream(&self) -> (r: LogStream)
        ensures
            r == self@.log_stream,
    {
        self.log_stream
    }

    pub fn log_lines(&self) -> (r: &Vec<String>)
        ensures
            texts(r@) == self@.log_lines,
    {
        &self.log_lines
    }

    pub fn log_scroll(&self) -> (r: usize)
        ensures
            r == self@.log_scroll,
    {
        self.log_scroll
    }

    pub fn initial_out_lines(&self) -> (r: &Vec<String>)
        ensures
            texts(r@) == self@.initial_out_lines,
    {
        &self.initial_out_lines
    }

    pub fn initial_err_lines(&self) -> (r: &Vec<String>)
        ensures
            texts(r@) == self@.initial_err_lines,
    {
        &self.initial_err_lines
    }

    pub fn history(&self) -> (r: &MetricHistory)
        ensures
            r@ == self@.history,
    {
        &self.history
    }

    pub fn port_map(&self) -> (r: &HashMap<i64, Vec<u16>>)
        ensures
            port_lists(r@) == self@.ports,
    {
        &self.port_map
    }

    pub fn should_quit(&self) -> (r: bool)
        ensures
            r == self@.should_quit,
    {
        self.should_quit
    }
}

/// How long the caller may wait for a key before the next tick is due, when
/// `elapsed` milliseconds have passed since the last one.
pub fn poll_timeout(elapsed: u64) -> (r: u64)
    ensures
        r == if elapsed < TICK_MILLIS {
            TICK_MILLIS - elapsed
        } else {
            0
        },
{
    if elapsed < TICK_MILLIS {
        TICK_MILLIS - elapsed
    } else {
        0
    }
}

/// Whether a tick is due when `elapsed` milliseconds have passed since the
/// last one.
pub fn tick_due(elapsed: u64) -> (r: bool)
    ensures
        r == (elapsed >= TICK_MILLIS),
{
    elapsed >= TICK_MILLIS
}

} // verus!
