//! What each panel of the dashboard shows, worked out from the state. The
//! caller only has to draw it.

use crate::dashboard::{DashboardModel, DashboardState, LogStream, Tab};
use crate::history::{series_of, MetricSample};
use crate::ports::{port_lists, ports_of};
use crate::process::{spec_truncate, status_of, truncate_str, ProcessStatus, ProcessView};
use crate::scroll::{scroll_window, window_end, window_start};
use crate::text::{decimal_digits, push_decimal, texts};
use std::collections::HashMap;
use vstd::prelude::*;

verus! {

broadcast use vstd::std_specs::hash::group_hash_axioms;

/// How many bytes of a name the process list shows.
pub const NAME_WIDTH: usize = 15;

/// How many bytes of a script or a path the overview shows.
pub const DETAIL_WIDTH: usize = 60;

/// The top of the CPU chart: a hundred percent.
pub const CPU_SCALE: u64 = 10000;

/// The least top of the memory chart, in KiB.
pub const MIN_MEMORY_SCALE: u64 = 1024;

/// One line of the process list.
#[derive(Clone, Debug, PartialEq, Eq)]
pub struct ProcessRow {
    pub selected: bool,
    pub id: usize,
    pub name: String,
    pub status: ProcessStatus,
    /// The ports to show: none for a process that does not run.
    pub ports: Vec<u16>,
}

/// The ports to show for `p`: those that the table lists for its PID while
/// it runs, in the order of the table.
pub open spec fn shown_ports(p: ProcessView, table: Map<i64, Seq<u16>>) -> Seq<u16> {
    if p.running {
        ports_of(table, p.pid)
    } else {
        Seq::empty()
    }
}

/// `row` is line `i` of the process list of `m`.
pub open spec fn is_row(row: ProcessRow, m: DashboardModel, i: int) -> bool {
    let p = m.processes[i];
    &&& row.selected == (i == m.selected)
    &&& row.id == p.id
    &&& row.name@ == spec_truncate(p.name@, NAME_WIDTH as nat)
    &&& row.status == status_of(p)
    &&& row.ports@ == shown_ports(p, m.ports)
}

/// The ports to show for `p`.
fn ports_to_show(p: &ProcessView, table: &HashMap<i64, Vec<u16>>) -> (r: Vec<u16>)
    ensures
        r@ == shown_ports(*p, port_lists(table@)),
{
    if !p.running {
        return Vec::new();
    }
    match table.get(&p.pid) {
        Some(list) => {
            assert(port_lists(table@)[p.pid] == list@);
            list.clone()
        },
        None => Vec::new(),
    }
}

/// The lines of the process list, one for each process in list order.
pub fn process_rows(state: &DashboardState) -> (rows: Vec<ProcessRow>)
    ensures
        rows@.len() == state@.processes.len(),
        forall|i: int| 0 <= i < rows@.len() ==> is_row(#[trigger] rows@[i], state@, i),
{
    let processes = state.processes();
    let table = state.port_map();
    let selected = state.selected();
    let mut rows: Vec<ProcessRow> = Vec::new();
    let mut i: usize = 0;
    while i < processes.len()
        invariant
            i <= processes.len(),
            processes@ == state@.processes,
            port_lists(table@) == state@.ports,
            selected == state@.selected,
            rows@.len() == i,
            forall|k: int| 0 <= k < i ==> is_row(#[trigger] rows@[k], state@, k),
        decreases processes.len() - i,
    {
        let p = &processes[i];
        let row = ProcessRow {
            selected: i == selected,
            id: p.id,
            name: truncate_str(p.name.as_str(), NAME_WIDTH),
            status: p.status(),
            ports: ports_to_show(p, table),
        };
        rows.push(row);
        i += 1;
    }
    rows
}

/// How a process is named in a title: its id in brackets, then its name.
pub open spec fn tag_of(id: usize, name: Seq<char>) -> Seq<char> {
    "["@ + decimal_digits(id as nat) + "] "@ + name
}

/// Appends the tag of a process to `out`.
fn push_tag(out: &mut String, id: usize, name: &str)
    ensures
        final(out)@ == old(out)@ + tag_of(id, name@),
{
    out.append("[");
    push_decimal(out, id as u64);
    out.append("] ");
    out.append(name);
    assert(out@ =~= old(out)@ + tag_of(id, name@));
}

/// The title of the CPU chart.
pub open spec fn cpu_title_of(name: Seq<char>) -> Seq<char> {
    " CPU % \u{2014} "@ + name + " "@
}

/// The title of the memory chart.
pub open spec fn memory_title_of(name: Seq<char>) -> Seq<char> {
    " Memory \u{2014} "@ + name + " "@
}

/// The title of the details below the charts.
pub open spec fn info_title_of(id: usize, name: Seq<char>) -> Seq<char> {
    " Info \u{2014} "@ + tag_of(id, name) + " "@
}

/// What the overview shows of the selected process.
#[derive(Clone, Debug, PartialEq, Eq)]
pub struct OverviewPanel {
    pub cpu_title: String,
    pub memory_title: String,
    pub info_title: String,
    pub id: usize,
    pub name: String,
    pub status: ProcessStatus,
    /// The PID, shown only while the process runs.
    pub pid: Option<i64>,
    /// The start time from which the uptime is counted, shown only while the
    /// process runs.
    pub started: Option<i64>,
    pub restarts: u64,
    pub cpu_series: Vec<u64>,
    pub cpu_scale: u64,
    pub memory_series: Vec<u64>,
    pub memory_scale: u64,
    pub ports: Vec<u16>,
    pub script: String,
    pub path: String,
}

/// The CPU readings of a series.
pub open spec fn cpu_values(s: Seq<MetricSample>) -> Seq<u64> {
    s.map_values(|x: MetricSample| x.cpu_percent_scaled)
}

/// The memory readings of a series.
pub open spec fn memory_values(s: Seq<MetricSample>) -> Seq<u64> {
    s.map_values(|x: MetricSample| x.resident_memory_kb)
}

/// The largest of `values` and `floor`.
pub open spec fn peak(values: Seq<u64>, floor: u64) -> u64
    decreases values.len(),
{
    if values.len() == 0 {
        floor
    } else {
        let before = peak(values.drop_last(), floor);
        if values.last() > before {
            values.last()
        } else {
            before
        }
    }
}

/// `peak` is an upper bound that is reached.
pub proof fn lemma_peak(values: Seq<u64>, floor: u64)
    ensures
        peak(values, floor) >= floor,
        forall|k: int| 0 <= k < values.len() ==> values[k] <= peak(values, floor),
        peak(values, floor) == floor || values.contains(peak(values, floor)),
    decreases values.len(),
{
    if values.len() > 0 {
        let front = values.drop_last();
        lemma_peak(front, floor);
        assert forall|k: int| 0 <= k < values.len() implies values[k] <= peak(values, floor) by {
            if k < front.len() {
                assert(values[k] == front[k]);
            }
        }
        if values.last() > peak(front, floor) {
            assert(values[values.len() - 1] == peak(values, floor));
        } else if peak(front, floor) != floor {
            let k = front.index_of(peak(front, floor));
            assert(values[k] == peak(values, floor));
        }
    }
}

/// The top of the memory chart: a quarter above the largest sample, and
/// above `MIN_MEMORY_SCALE` when all samples are smaller.
pub open spec fn memory_scale_of(values: Seq<u64>) -> int {
    peak(values, MIN_MEMORY_SCALE) + peak(values, MIN_MEMORY_SCALE) / 4
}

/// `panel` is the overview of the selected process of `m`.
pub open spec fn is_overview(panel: OverviewPanel, m: DashboardModel) -> bool {
    let p = m.processes[m.selected as int];
    let series = series_of(m.history, p.id);
    &&& panel.cpu_title@ == cpu_title_of(p.name@)
    &&& panel.memory_title@ == memory_title_of(p.name@)
    &&& panel.info_title@ == info_title_of(p.id, p.name@)
    &&& panel.id == p.id
    &&& panel.name@ == p.name@
    &&& panel.status == status_of(p)
    &&& panel.pid == (if p.running {
        Some(p.pid)
    } else {
        None
    })
    &&& panel.started == (if p.running {
        Some(p.started)
    } else {
        None
    })
    &&& panel.restarts == p.restarts
    &&& panel.cpu_series@ == cpu_values(series)
    &&& panel.cpu_scale == CPU_SCALE
    &&& panel.memory_series@ == memory_values(series)
    &&& panel.memory_scale == memory_scale_of(memory_values(series))
    &&& panel.ports@ == shown_ports(p, m.ports)
    &&& panel.script@ == spec_truncate(p.script@, DETAIL_WIDTH as nat)
    &&& panel.path@ == spec_truncate(p.path@, DETAIL_WIDTH as nat)
}

/// The overview of the selected process; nothing while no process is known.
pub fn overview(state: &DashboardState) -> (r: Option<OverviewPanel>)
    requires
        state.wf(),
    ensures
        match r {
            Some(panel) => state@.processes.len() > 0 && is_overview(panel, state@),
            None => state@.processes.len() == 0,
        },
{
    let p = match state.selected_process() {
        Some(p) => p,
        None => {
            return None;
        },
    };
    let samples = state.history().series(p.id);
    let mut cpu_series: Vec<u64> = Vec::new();
    let mut memory_series: Vec<u64> = Vec::new();
    let mut top: u64 = MIN_MEMORY_SCALE;
    let mut i: usize = 0;
    assert(samples@.take(0) =~= Seq::<MetricSample>::empty());
    while i < samples.len()
        invariant
            i <= samples.len(),
            cpu_series@ == cpu_values(samples@.take(i as int)),
            memory_series@ == memory_values(samples@.take(i as int)),
            top == peak(memory_values(samples@.take(i as int)), MIN_MEMORY_SCALE),
        decreases samples.len() - i,
    {
        let x = samples[i];
        let ghost read = samples@.take(i as int + 1);
        assert(read.drop_last() =~= samples@.take(i as int));
        assert(memory_values(read).drop_last() =~= memory_values(samples@.take(i as int)));
        cpu_series.push(x.cpu_percent_scaled);
        memory_series.push(x.resident_memory_kb);
        if x.resident_memory_kb > top {
            top = x.resident_memory_kb;
        }
        assert(cpu_series@ =~= cpu_values(read));
        assert(memory_series@ =~= memory_values(read));
        i += 1;
    }
    assert(samples@.take(i as int) =~= samples@);
    proof {
        lemma_peak(memory_values(samples@), MIN_MEMORY_SCALE);
        if top != MIN_MEMORY_SCALE {
            let k = memory_values(samples@).index_of(top);
            assert(samples@[k].resident_memory_kb == top);
            assert(state@.history.contains_key(p.id));
            assert(state@.history[p.id][k].resident_memory_kb
                <= crate::dashboard::MAX_MEMORY_KB);
        }
    }
    let running = p.running;
    let mut cpu_title = String::from_str(" CPU % \u{2014} ");
    cpu_title.append(p.name.as_str());
    cpu_title.append(" ");
    let mut memory_title = String::from_str(" Memory \u{2014} ");
    memory_title.append(p.name.as_str());
    memory_title.append(" ");
    let mut info_title = String::from_str(" Info \u{2014} ");
    push_tag(&mut info_title, p.id, p.name.as_str());
    info_title.append(" ");
    Some(
        OverviewPanel {
            cpu_title,
            memory_title,
            info_title,
            id: p.id,
            name: p.name.clone(),
            status: p.status(),
            pid: if running {
                Some(p.pid)
            } else {
                None
            },
            started: if running {
                Some(p.started)
            } else {
                None
            },
            restarts: p.restarts,
            cpu_series,
            cpu_scale: CPU_SCALE,
            memory_series,
            memory_scale: top + top / 4,
            ports: ports_to_show(p, state.port_map()),
            script: truncate_str(p.script.as_str(), DETAIL_WIDTH),
            path: truncate_str(p.path.as_str(), DETAIL_WIDTH),
        },
    )
}

/// The name of a stream as titles and headers show it.
pub open spec fn stream_name_of(stream: LogStream) -> Seq<char> {
    match stream {
        LogStream::Stdout => "stdout"@,
        LogStream::Stderr => "stderr"@,
    }
}

/// The name of a stream.
pub fn stream_name(stream: LogStream) -> (r: &'static str)
    ensures
        r@ == stream_name_of(stream),
{
    match stream {
        LogStream::Stdout => "stdout",
        LogStream::Stderr => "stderr",
    }
}

/// The title of the log view: the stream, and the selected process if there
/// is one.
pub open spec fn logs_title_of(m: DashboardModel) -> Seq<char> {
    if m.selected < m.processes.len() {
        let p = m.processes[m.selected as int];
        " Logs ("@ + stream_name_of(m.log_stream) + ") \u{2014} "@ + tag_of(p.id, p.name@) + " "@
    } else {
        " Logs ("@ + stream_name_of(m.log_stream) + ") "@
    }
}

/// The title of the view from the start of the run.
pub open spec fn initial_logs_title_of(m: DashboardModel) -> Seq<char> {
    if m.selected < m.processes.len() {
        let p = m.processes[m.selected as int];
        " Initial Logs \u{2014} "@ + tag_of(p.id, p.name@) + " "@
    } else {
        " Initial Logs "@
    }
}

/// The log view: its title, its stream, and which of the log lines are on
/// screen. Without any line there is no window, and the caller says that no
/// logs are available.
#[derive(Clone, Debug, PartialEq, Eq)]
pub struct LogsPanel {
    pub title: String,
    pub stream: LogStream,
    pub window: Option<(usize, usize)>,
}

/// The log view in a panel with `inner_height` rows for lines.
pub fn logs_panel(state: &DashboardState, inner_height: usize) -> (panel: LogsPanel)
    ensures
        panel.title@ == logs_title_of(state@),
        panel.stream == state@.log_stream,
        panel.window == (if state@.log_lines.len() == 0 {
            None
        } else {
            Some(
                (
                    window_start(
                        state@.log_lines.len(),
                        inner_height as nat,
                        state@.log_scroll as nat,
                    ) as usize,
                    window_end(
                        state@.log_lines.len(),
                        inner_height as nat,
                        state@.log_scroll as nat,
                    ) as usize,
                ),
            )
        }),
        panel.window matches Some(w) ==> w.0 <= w.1 <= state@.log_lines.len(),
{
    let stream = state.log_stream();
    let mut title = String::from_str(" Logs (");
    title.append(stream_name(stream));
    match state.selected_process() {
        Some(p) => {
            title.append(") \u{2014} ");
            push_tag(&mut title, p.id, p.name.as_str());
            title.append(" ");
        },
        None => {
            title.append(") ");
        },
    }
    assert(title@ =~= logs_title_of(state@));
    let total: usize = state.log_lines().len();
    let window = if total == 0 {
        None
    } else {
        Some(scroll_window(total, inner_height, state.log_scroll()))
    };
    LogsPanel { title, stream, window }
}

/// What a line of the view from the start of the run is.
#[derive(Clone, Copy, Debug, PartialEq, Eq, Structural)]
pub enum InitialLineKind {
    /// The line above the lines of a stream, with their number.
    Header,
    /// The empty line between the two streams.
    Blank,
    /// A line of the standard output.
    OutLine,
    /// A line of the standard error.
    ErrLine,
}

/// One line of the view from the start of the run.
#[derive(Clone, Debug, PartialEq, Eq)]
pub struct InitialLine {
    pub kind: InitialLineKind,
    pub text: String,
}

/// The lines `v` as contracts see them.
pub open spec fn initial_line_views(v: Seq<InitialLine>) -> Seq<(InitialLineKind, Seq<char>)> {
    v.map_values(|l: InitialLine| (l.kind, l.text@))
}

/// The kind of the lines of a stream.
pub open spec fn line_kind_of(stream: LogStream) -> InitialLineKind {
    match stream {
        LogStream::Stdout => InitialLineKind::OutLine,
        LogStream::Stderr => InitialLineKind::ErrLine,
    }
}

/// The line above the `count` lines of a stream.
pub open spec fn header_of(stream: LogStream, count: nat) -> Seq<char> {
    "\u{2500}\u{2500}\u{2500} "@ + stream_name_of(stream) + " ("@ + decimal_digits(count)
        + " lines):"@
}

/// The lines of one stream under their header; nothing for a stream without
/// lines.
pub open spec fn section_of(stream: LogStream, lines: Seq<Seq<char>>) -> Seq<
    (InitialLineKind, Seq<char>),
> {
    if lines.len() == 0 {
        Seq::empty()
    } else {
        seq![(InitialLineKind::Header, header_of(stream, lines.len()))] + lines.map_values(
            |l: Seq<char>| (line_kind_of(stream), l),
        )
    }
}

/// What separates the two streams when both have lines.
pub open spec fn gap_of(out: Seq<Seq<char>>, err: Seq<Seq<char>>) -> Seq<
    (InitialLineKind, Seq<char>),
> {
    if out.len() > 0 && err.len() > 0 {
        seq![(InitialLineKind::Blank, Seq::<char>::empty())]
    } else {
        Seq::empty()
    }
}

/// All the lines of the view from the start of the run: the standard output
/// first, then the standard error.
pub open spec fn initial_lines_of(m: DashboardModel) -> Seq<(InitialLineKind, Seq<char>)> {
    section_of(LogStream::Stdout, m.initial_out_lines) + gap_of(
        m.initial_out_lines,
        m.initial_err_lines,
    ) + section_of(LogStream::Stderr, m.initial_err_lines)
}

/// What the view from the start of the run holds.
#[derive(Clone, Debug, PartialEq, Eq)]
pub enum InitialLogsBody {
    /// No process is known.
    NoProcesses,
    /// Neither stream has a line yet.
    NothingCaptured,
    /// The lines, and which of them are on screen.
    Lines { lines: Vec<InitialLine>, start: usize, end: usize },
}

/// The view from the start of the run: its title and what it holds.
#[derive(Clone, Debug, PartialEq, Eq)]
pub struct InitialLogsPanel {
    pub title: String,
    pub body: InitialLogsBody,
}

/// Appends the section of one stream to `out`.
fn push_section(out: &mut Vec<InitialLine>, stream: LogStream, lines: &Vec<String>)
    ensures
        initial_line_views(final(out)@) == initial_line_views(old(out)@) + section_of(
            stream,
            texts(lines@),
        ),
{
    if lines.len() == 0 {
        assert(initial_line_views(out@) + Seq::<(InitialLineKind, Seq<char>)>::empty()
            =~= initial_line_views(out@));
        return ;
    }
    let mut header = String::from_str("\u{2500}\u{2500}\u{2500} ");
    header.append(stream_name(stream));
    header.append(" (");
    push_decimal(&mut header, lines.len() as u64);
    header.append(" lines):");
    assert(header@ =~= header_of(stream, lines@.len()));
    let kind = match stream {
        LogStream::Stdout => InitialLineKind::OutLine,
        LogStream::Stderr => InitialLineKind::ErrLine,
    };
    let ghost start = initial_line_views(out@);
    let ghost head = seq![(InitialLineKind::Header, header@)];
    let ghost body = texts(lines@).map_values(|l: Seq<char>| (line_kind_of(stream), l));
    out.push(InitialLine { kind: InitialLineKind::Header, text: header });
    assert(initial_line_views(out@) =~= start + head + body.take(0));
    let mut i: usize = 0;
    while i < lines.len()
        invariant
            i <= lines.len(),
            kind == line_kind_of(stream),
            body == texts(lines@).map_values(|l: Seq<char>| (line_kind_of(stream), l)),
            initial_line_views(out@) == start + head + body.take(i as int),
        decreases lines.len() - i,
    {
        let ghost before = initial_line_views(out@);
        let line = lines[i].clone();
        out.push(InitialLine { kind, text: line });
        assert(initial_line_views(out@) =~= before.push((kind, lines@[i as int]@)));
        assert(start + head + body.take(i as int + 1) =~= (start + head + body.take(
            i as int,
        )).push(body[i as int]));
        i += 1;
    }
    assert(body.take(i as int) =~= body);
    assert(start + head + body =~= start + (head + body));
}

/// The view from the start of the run in a panel with `inner_height` rows
/// for lines.
pub fn initial_logs_panel(state: &DashboardState, inner_height: usize) -> (panel: InitialLogsPanel)
    ensures
        panel.title@ == initial_logs_title_of(state@),
        match panel.body {
            InitialLogsBody::NoProcesses => state@.processes.len() == 0,
            InitialLogsBody::NothingCaptured => state@.processes.len() > 0
                && state@.initial_out_lines.len() == 0 && state@.initial_err_lines.len() == 0,
            InitialLogsBody::Lines { lines, start, end } => {
                &&& state@.processes.len() > 0
                &&& state@.initial_out_lines.len() + state@.initial_err_lines.len() > 0
                &&& initial_line_views(lines@) == initial_lines_of(state@)
                &&& start == window_start(
                    lines@.len(),
                    inner_height as nat,
                    state@.log_scroll as nat,
                )
                &&& end == window_end(lines@.len(), inner_height as nat, state@.log_scroll as nat)
                &&& start <= end <= lines@.len()
            },
        },
{
    let mut title = String::from_str(" Initial Logs ");
    match state.selected_process() {
        Some(p) => {
            title.append("\u{2014} ");
            push_tag(&mut title, p.id, p.name.as_str());
            title.append(" ");
            proof {
                reveal_strlit(" Initial Logs ");
                reveal_strlit("\u{2014} ");
                reveal_strlit(" Initial Logs \u{2014} ");
            }
            assert(" Initial Logs "@ + "\u{2014} "@ =~= " Initial Logs \u{2014} "@);
            assert(title@ =~= initial_logs_title_of(state@));
        },
        None => {},
    }
    if state.processes().len() == 0 {
        return InitialLogsPanel { title, body: InitialLogsBody::NoProcesses };
    }
    let out = state.initial_out_lines();
    let err = state.initial_err_lines();
    if out.len() == 0 && err.len() == 0 {
        return InitialLogsPanel { title, body: InitialLogsBody::NothingCaptured };
    }
    let mut lines: Vec<InitialLine> = Vec::new();
    assert(initial_line_views(lines@) =~= Seq::<(InitialLineKind, Seq<char>)>::empty());
    push_section(&mut lines, LogStream::Stdout, out);
    if out.len() > 0 && err.len() > 0 {
        let ghost before = initial_line_views(lines@);
        lines.push(InitialLine { kind: InitialLineKind::Blank, text: String::new() });
        assert(initial_line_views(lines@) =~= before + gap_of(texts(out@), texts(err@)));
    } else {
        assert(initial_line_views(lines@) + gap_of(texts(out@), texts(err@))
            =~= initial_line_views(lines@));
    }
    push_section(&mut lines, LogStream::Stderr, err);
    assert(initial_line_views(lines@) =~= initial_lines_of(state@));
    let window = scroll_window(lines.len(), inner_height, state.log_scroll());
    InitialLogsPanel {
        title,
        body: InitialLogsBody::Lines { lines, start: window.0, end: window.1 },
    }
}

/// What kind of key a hint of the status bar names.
#[derive(Clone, Copy, Debug, PartialEq, Eq, Structural)]
pub enum HintKind {
    /// A key that acts on the selected process or picks a stream.
    Command,
    /// A key that moves through the views.
    Navigate,
    /// The key that leaves.
    Quit,
}

/// One hint of the status bar: the key, shown in the colour of its kind, and
/// the text behind it.
#[derive(Clone, Copy, Debug, PartialEq, Eq)]
pub struct Hint {
    pub key: &'static str,
    pub label: &'static str,
    pub kind: HintKind,
}

/// The hints `v` as contracts see them.
pub open spec fn hint_views(v: Seq<Hint>) -> Seq<(Seq<char>, Seq<char>, HintKind)> {
    v.map_values(|h: Hint| (h.key@, h.label@, h.kind))
}

/// The hints of the status bar on each tab, from left to right.
pub open spec fn hints_of(tab: Tab) -> Seq<(Seq<char>, Seq<char>, HintKind)> {
    match tab {
        Tab::Overview => seq![
            (" [r]"@, "estart "@, HintKind::Command),
            ("[s]"@, "top "@, HintKind::Command),
            ("[S]"@, "tart "@, HintKind::Command),
            ("[f]"@, "lush "@, HintKind::Command),
            ("[Tab]"@, " logs "@, HintKind::Navigate),
            ("[q]"@, "uit"@, HintKind::Quit),
        ],
        Tab::Logs => seq![
            (" [1]"@, " stdout "@, HintKind::Command),
            ("[2]"@, " stderr "@, HintKind::Command),
            ("[PgUp/PgDn]"@, " scroll "@, HintKind::Navigate),
            ("[r]"@, "estart "@, HintKind::Command),
            ("[s]"@, "top "@, HintKind::Command),
            ("[f]"@, "lush "@, HintKind::Command),
            ("[Tab]"@, " initial-logs "@, HintKind::Navigate),
            ("[q]"@, "uit"@, HintKind::Quit),
        ],
        Tab::InitialLogs => seq![
            (" [PgUp/PgDn]"@, " scroll "@, HintKind::Navigate),
            ("[r]"@, "estart "@, HintKind::Command),
            ("[s]"@, "top "@, HintKind::Command),
            ("[S]"@, "tart "@, HintKind::Command),
            ("[f]"@, "lush "@, HintKind::Command),
            ("[Tab]"@, " overview "@, HintKind::Navigate),
            ("[q]"@, "uit"@, HintKind::Quit),
        ],
    }
}

/// The hints of the status bar on `tab`.
pub fn status_hints(tab: Tab) -> (r: Vec<Hint>)
    ensures
        hint_views(r@) == hints_of(tab),
{
    let mut r: Vec<Hint> = Vec::new();
    match tab {
        Tab::Overview => {
            r.push(Hint { key: " [r]", label: "estart ", kind: HintKind::Command });
            r.push(Hint { key: "[s]", label: "top ", kind: HintKind::Command });
            r.push(Hint { key: "[S]", label: "tart ", kind: HintKind::Command });
            r.push(Hint { key: "[f]", label: "lush ", kind: HintKind::Command });
            r.push(Hint { key: "[Tab]", label: " logs ", kind: HintKind::Navigate });
            r.push(Hint { key: "[q]", label: "uit", kind: HintKind::Quit });
        },
        Tab::Logs => {
            r.push(Hint { key: " [1]", label: " stdout ", kind: HintKind::Command });
            r.push(Hint { key: "[2]", label: " stderr ", kind: HintKind::Command });
            r.push(Hint { key: "[PgUp/PgDn]", label: " scroll ", kind: HintKind::Navigate });
            r.push(Hint { key: "[r]", label: "estart ", kind: HintKind::Command });
            r.push(Hint { key: "[s]", label: "top ", kind: HintKind::Command });
            r.push(Hint { key: "[f]", label: "lush ", kind: HintKind::Command });
            r.push(Hint { key: "[Tab]", label: " initial-logs ", kind: HintKind::Navigate });
            r.push(Hint { key: "[q]", label: "uit", kind: HintKind::Quit });
        },
        Tab::InitialLogs => {
            r.push(Hint { key: " [PgUp/PgDn]", label: " scroll ", kind: HintKind::Navigate });
            r.push(Hint { key: "[r]", label: "estart ", kind: HintKind::Command });
            r.push(Hint { key: "[s]", label: "top ", kind: HintKind::Command });
            r.push(Hint { key: "[S]", label: "tart ", kind: HintKind::Command });
            r.push(Hint { key: "[f]", label: "lush ", kind: HintKind::Command });
            r.push(Hint { key: "[Tab]", label: " overview ", kind: HintKind::Navigate });
            r.push(Hint { key: "[q]", label: "uit", kind: HintKind::Quit });
        },
    }
    assert(hint_views(r@) =~= hints_of(tab));
    r
}

} // verus!
