use pmc::dashboard::{DashboardState, KeyCode, KeyPress, LogStream, Tab};
use pmc::panels::{
    initial_logs_panel, logs_panel, overview, process_rows, status_hints, stream_name, Hint,
    HintKind, InitialLine, InitialLineKind, InitialLogsBody, ProcessRow,
};
use pmc::process::{InitialLogAnchor, LogPaths, ProcessStatus, ProcessView, ResourceUsage};
use std::collections::HashMap;

fn process(id: usize, pid: i64, name: &str, running: bool, crashed: bool) -> ProcessView {
    ProcessView {
        id,
        pid,
        name: name.to_string(),
        running,
        crashed,
        script: "node /srv/app/server.js --port 3000".to_string(),
        path: "/srv/app".to_string(),
        started: 1_700_000_000,
        restarts: 4,
        logs: LogPaths { out: "/l/out".to_string(), error: "/l/err".to_string() },
        initial_logs: InitialLogAnchor { start_pos_out: 0, start_pos_error: 0 },
    }
}

fn state_with(list: Vec<ProcessView>, ports: HashMap<i64, Vec<u16>>) -> DashboardState {
    let mut state = DashboardState::new();
    state.refresh_processes(list, &HashMap::new(), ports);
    state
}

fn down(state: &mut DashboardState) {
    state.handle_key(KeyPress { code: KeyCode::Down, ctrl: false });
}

fn line(kind: InitialLineKind, text: &str) -> InitialLine {
    InitialLine { kind, text: text.to_string() }
}

#[test]
fn process_list_has_a_row_for_each_process() {
    let mut ports = HashMap::new();
    ports.insert(11, vec![8080u16, 3000]);
    ports.insert(12, vec![9000u16]);
    let mut state = state_with(
        vec![
            process(1, 11, "api", true, false),
            process(2, 12, "a-very-long-process-name", false, true),
            process(3, 13, "worker", false, false),
            process(4, 14, "idle", true, true),
        ],
        ports,
    );
    down(&mut state);
    assert_eq!(
        process_rows(&state),
        vec![
            ProcessRow { selected: false, id: 1, name: "api".to_string(), status: ProcessStatus::Online, ports: vec![8080, 3000] },
            ProcessRow { selected: true, id: 2, name: "a-very-long-...".to_string(), status: ProcessStatus::Crashed, ports: vec![] },
            ProcessRow { selected: false, id: 3, name: "worker".to_string(), status: ProcessStatus::Stopped, ports: vec![] },
            ProcessRow { selected: false, id: 4, name: "idle".to_string(), status: ProcessStatus::Online, ports: vec![] },
        ]
    );
    assert!(process_rows(&DashboardState::new()).is_empty());
}

#[test]
fn no_row_is_selected_when_the_selection_points_nowhere() {
    let mut state = state_with(vec![process(1, 1, "a", true, false), process(2, 2, "b", true, false)], HashMap::new());
    down(&mut state);
    state.refresh_processes(Vec::new(), &HashMap::new(), HashMap::new());
    assert!(process_rows(&state).is_empty());
    assert_eq!(overview(&state), None);
}

#[test]
fn overview_shows_the_selected_process() {
    let mut state = DashboardState::new();
    let mut ports = HashMap::new();
    ports.insert(11, vec![8080u16, 3000]);
    let list = || vec![process(1, 10, "db", false, false), process(2, 11, "api", true, false)];
    let mut usage = HashMap::new();
    usage.insert(11, ResourceUsage { cpu_percent_scaled: 150, resident_bytes: 4096 * 1024 });
    state.refresh_processes(list(), &usage, ports.clone());
    usage.insert(11, ResourceUsage { cpu_percent_scaled: 9999, resident_bytes: 2000 * 1024 });
    state.refresh_processes(list(), &usage, ports.clone());
    down(&mut state);
    let panel = overview(&state).unwrap();
    assert_eq!(panel.cpu_title, " CPU % \u{2014} api ");
    assert_eq!(panel.memory_title, " Memory \u{2014} api ");
    assert_eq!(panel.info_title, " Info \u{2014} [2] api ");
    assert_eq!(panel.id, 2);
    assert_eq!(panel.name, "api");
    assert_eq!(panel.status, ProcessStatus::Online);
    assert_eq!(panel.pid, Some(11));
    assert_eq!(panel.started, Some(1_700_000_000));
    assert_eq!(panel.restarts, 4);
    assert_eq!(panel.cpu_series, vec![150, 9999]);
    assert_eq!(panel.cpu_scale, 10000);
    assert_eq!(panel.memory_series, vec![4096, 2000]);
    assert_eq!(panel.memory_scale, 5120);
    assert_eq!(panel.ports, vec![8080, 3000]);
    assert_eq!(panel.script, "node /srv/app/server.js --port 3000");
    assert_eq!(panel.path, "/srv/app");
}

#[test]
fn overview_of_a_stopped_process_hides_pid_uptime_and_ports() {
    let mut ports = HashMap::new();
    ports.insert(10, vec![5432u16]);
    let mut long = process(1, 10, "db", false, true);
    long.script = "x".repeat(61);
    long.path = "y".repeat(60);
    let state = state_with(vec![long], ports);
    let panel = overview(&state).unwrap();
    assert_eq!(panel.status, ProcessStatus::Crashed);
    assert_eq!(panel.pid, None);
    assert_eq!(panel.started, None);
    assert_eq!(panel.ports, Vec::<u16>::new());
    assert_eq!(panel.cpu_series, vec![0]);
    assert_eq!(panel.memory_series, vec![0]);
    assert_eq!(panel.memory_scale, 1280);
    assert_eq!(panel.script, format!("{}...", "x".repeat(57)));
    assert_eq!(panel.path, "y".repeat(60));
}

#[test]
fn memory_chart_tops_out_a_quarter_above_the_peak() {
    for (bytes, scale) in [(0u64, 1280u64), (1024 * 1024, 1280), (1025 * 1024, 1281), (4000 * 1024, 5000), (u64::MAX, (u64::MAX / 1024) + (u64::MAX / 1024) / 4)] {
        let mut usage = HashMap::new();
        usage.insert(1, ResourceUsage { cpu_percent_scaled: 0, resident_bytes: bytes });
        let mut state = DashboardState::new();
        state.refresh_processes(vec![process(1, 1, "a", true, false)], &usage, HashMap::new());
        state.refresh_processes(vec![process(1, 1, "a", true, false)], &HashMap::new(), HashMap::new());
        assert_eq!(overview(&state).unwrap().memory_scale, scale);
    }
}

#[test]
fn logs_panel_is_titled_by_stream_and_process() {
    let mut state = DashboardState::new();
    let panel = logs_panel(&state, 20);
    assert_eq!(panel.title, " Logs (stdout) ");
    assert_eq!(panel.stream, LogStream::Stdout);
    assert_eq!(panel.window, None);
    state.refresh_processes(vec![process(12, 1, "api", true, false)], &HashMap::new(), HashMap::new());
    state.handle_key(KeyPress { code: KeyCode::Tab, ctrl: false });
    assert_eq!(logs_panel(&state, 20).title, " Logs (stdout) \u{2014} [12] api ");
    state.handle_key(KeyPress { code: KeyCode::Char('2'), ctrl: false });
    let panel = logs_panel(&state, 20);
    assert_eq!(panel.title, " Logs (stderr) \u{2014} [12] api ");
    assert_eq!(panel.stream, LogStream::Stderr);
    assert_eq!(stream_name(LogStream::Stdout), "stdout");
    assert_eq!(stream_name(LogStream::Stderr), "stderr");
}

#[test]
fn logs_panel_window_follows_the_scroll() {
    let mut state = state_with(vec![process(1, 1, "api", true, false)], HashMap::new());
    let mut bytes = Vec::new();
    for i in 0..120 {
        bytes.extend_from_slice(format!("{i}\n").as_bytes());
    }
    state.refresh_logs(Some(&bytes));
    assert_eq!(logs_panel(&state, 20).window, Some((100, 120)));
    state.handle_key(KeyPress { code: KeyCode::PageUp, ctrl: false });
    assert_eq!(logs_panel(&state, 20).window, Some((90, 110)));
    for _ in 0..19 {
        state.handle_key(KeyPress { code: KeyCode::PageUp, ctrl: false });
    }
    assert_eq!(state.log_scroll(), 200);
    assert_eq!(logs_panel(&state, 20).window, Some((0, 20)));
    assert_eq!(logs_panel(&state, 500).window, Some((0, 120)));
    state.refresh_logs(Some(b""));
    assert_eq!(logs_panel(&state, 20).window, None);
}

#[test]
fn initial_logs_panel_says_why_it_is_empty() {
    let mut state = DashboardState::new();
    let panel = initial_logs_panel(&state, 20);
    assert_eq!(panel.title, " Initial Logs ");
    assert_eq!(panel.body, InitialLogsBody::NoProcesses);
    state.refresh_processes(vec![process(3, 1, "api", true, false)], &HashMap::new(), HashMap::new());
    let panel = initial_logs_panel(&state, 20);
    assert_eq!(panel.title, " Initial Logs \u{2014} [3] api ");
    assert_eq!(panel.body, InitialLogsBody::NothingCaptured);
}

#[test]
fn initial_logs_panel_lists_both_streams_under_headers() {
    let mut state = state_with(vec![process(3, 1, "api", true, false)], HashMap::new());
    state.refresh_initial_logs(Some(b"boot\nready\n"), Some(b"warn\n"));
    assert_eq!(
        initial_logs_panel(&state, 20).body,
        InitialLogsBody::Lines {
            lines: vec![
                line(InitialLineKind::Header, "\u{2500}\u{2500}\u{2500} stdout (2 lines):"),
                line(InitialLineKind::OutLine, "boot"),
                line(InitialLineKind::OutLine, "ready"),
                line(InitialLineKind::Blank, ""),
                line(InitialLineKind::Header, "\u{2500}\u{2500}\u{2500} stderr (1 lines):"),
                line(InitialLineKind::ErrLine, "warn"),
            ],
            start: 0,
            end: 6,
        }
    );
    state.refresh_initial_logs(Some(b"boot\n"), None);
    assert_eq!(
        initial_logs_panel(&state, 1).body,
        InitialLogsBody::Lines {
            lines: vec![
                line(InitialLineKind::Header, "\u{2500}\u{2500}\u{2500} stdout (1 lines):"),
                line(InitialLineKind::OutLine, "boot"),
            ],
            start: 1,
            end: 2,
        }
    );
    state.refresh_initial_logs(None, Some(b"a\nb\nc\n"));
    state.handle_key(KeyPress { code: KeyCode::PageUp, ctrl: false });
    assert_eq!(
        initial_logs_panel(&state, 2).body,
        InitialLogsBody::Lines {
            lines: vec![
                line(InitialLineKind::Header, "\u{2500}\u{2500}\u{2500} stderr (3 lines):"),
                line(InitialLineKind::ErrLine, "a"),
                line(InitialLineKind::ErrLine, "b"),
                line(InitialLineKind::ErrLine, "c"),
            ],
            start: 0,
            end: 2,
        }
    );
}

#[test]
fn initial_logs_panel_counts_a_hundred_lines() {
    let mut state = state_with(vec![process(3, 1, "api", true, false)], HashMap::new());
    let mut bytes = Vec::new();
    for i in 0..140 {
        bytes.extend_from_slice(format!("{i}\n").as_bytes());
    }
    state.refresh_initial_logs(Some(&bytes), Some(&bytes));
    match initial_logs_panel(&state, 10).body {
        InitialLogsBody::Lines { lines, start, end } => {
            assert_eq!(lines.len(), 203);
            assert_eq!(lines[0].text, "\u{2500}\u{2500}\u{2500} stdout (100 lines):");
            assert_eq!(lines[101].kind, InitialLineKind::Blank);
            assert_eq!(lines[102].text, "\u{2500}\u{2500}\u{2500} stderr (100 lines):");
            assert_eq!((start, end), (193, 203));
        }
        other => panic!("{other:?}"),
    }
}

#[test]
fn status_bar_hints_by_tab() {
    let h = |key: &'static str, label: &'static str, kind: HintKind| Hint { key, label, kind };
    assert_eq!(
        status_hints(Tab::Overview),
        vec![
            h(" [r]", "estart ", HintKind::Command),
            h("[s]", "top ", HintKind::Command),
            h("[S]", "tart ", HintKind::Command),
            h("[f]", "lush ", HintKind::Command),
            h("[Tab]", " logs ", HintKind::Navigate),
            h("[q]", "uit", HintKind::Quit),
        ]
    );
    assert_eq!(
        status_hints(Tab::Logs),
        vec![
            h(" [1]", " stdout ", HintKind::Command),
            h("[2]", " stderr ", HintKind::Command),
            h("[PgUp/PgDn]", " scroll ", HintKind::Navigate),
            h("[r]", "estart ", HintKind::Command),
            h("[s]", "top ", HintKind::Command),
            h("[f]", "lush ", HintKind::Command),
            h("[Tab]", " initial-logs ", HintKind::Navigate),
            h("[q]", "uit", HintKind::Quit),
        ]
    );
    assert_eq!(
        status_hints(Tab::InitialLogs),
        vec![
            h(" [PgUp/PgDn]", " scroll ", HintKind::Navigate),
            h("[r]", "estart ", HintKind::Command),
            h("[s]", "top ", HintKind::Command),
            h("[S]", "tart ", HintKind::Command),
            h("[f]", "lush ", HintKind::Command),
            h("[Tab]", " overview ", HintKind::Navigate),
            h("[q]", "uit", HintKind::Quit),
        ]
    );
}
