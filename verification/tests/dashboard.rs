use pmc::dashboard::{
    command_for, poll_timeout, tick_due, Action, Command, DashboardState, InitialLogSources,
    KeyCode, KeyPress, LogSource, LogStream, Tab, TICK_MILLIS,
};
use pmc::history::MetricSample;
use pmc::process::{InitialLogAnchor, LogPaths, ProcessView, ResourceUsage};
use std::collections::HashMap;

fn proc_view(id: usize, pid: i64, running: bool) -> ProcessView {
    ProcessView {
        id,
        pid,
        name: format!("app-{id}"),
        running,
        crashed: false,
        script: format!("node app-{id}.js"),
        path: "/srv".to_string(),
        started: 1_700_000_000,
        restarts: 0,
        logs: LogPaths { out: format!("/logs/{id}-out.log"), error: format!("/logs/{id}-error.log") },
        initial_logs: InitialLogAnchor { start_pos_out: 10 * id as u64, start_pos_error: 20 * id as u64 },
    }
}

fn key(code: KeyCode) -> KeyPress {
    KeyPress { code, ctrl: false }
}

fn press(state: &mut DashboardState, c: char) -> Action {
    state.handle_key(key(KeyCode::Char(c)))
}

fn with_processes(n: usize) -> DashboardState {
    let mut state = DashboardState::new();
    let list: Vec<ProcessView> = (0..n).map(|i| proc_view(i + 1, 100 + i as i64, true)).collect();
    state.refresh_processes(list, &HashMap::new(), HashMap::new());
    state
}

const ZERO: MetricSample = MetricSample { cpu_percent_scaled: 0, resident_memory_kb: 0 };

#[test]
fn new_dashboard_is_empty_on_the_overview() {
    let state = DashboardState::new();
    assert!(state.processes().is_empty());
    assert_eq!(state.selected(), 0);
    assert_eq!(state.tab(), Tab::Overview);
    assert_eq!(state.log_stream(), LogStream::Stdout);
    assert!(state.log_lines().is_empty());
    assert_eq!(state.log_scroll(), 0);
    assert!(state.initial_out_lines().is_empty());
    assert!(state.initial_err_lines().is_empty());
    assert!(state.port_map().is_empty());
    assert!(!state.should_quit());
    assert_eq!(state.selected_id(), None);
    assert_eq!(state.selected_process(), None);
    assert_eq!(state.log_source(), None);
    assert_eq!(state.initial_log_sources(), None);
    assert!(state.history().series(1).is_empty());
}

#[test]
fn key_bindings() {
    let plain = [
        (KeyCode::Char('q'), Command::Quit),
        (KeyCode::Esc, Command::Quit),
        (KeyCode::Up, Command::SelectPrevious),
        (KeyCode::Char('k'), Command::SelectPrevious),
        (KeyCode::Down, Command::SelectNext),
        (KeyCode::Char('j'), Command::SelectNext),
        (KeyCode::Tab, Command::NextTab),
        (KeyCode::Char('1'), Command::ShowStdout),
        (KeyCode::Char('2'), Command::ShowStderr),
        (KeyCode::PageUp, Command::PageUp),
        (KeyCode::PageDown, Command::PageDown),
        (KeyCode::Char('r'), Command::Restart),
        (KeyCode::Char('s'), Command::Stop),
        (KeyCode::Char('S'), Command::Start),
        (KeyCode::Char('f'), Command::Flush),
        (KeyCode::Char('c'), Command::Ignore),
        (KeyCode::Char('x'), Command::Ignore),
        (KeyCode::Char('Q'), Command::Ignore),
        (KeyCode::Other, Command::Ignore),
    ];
    for (code, command) in plain {
        assert_eq!(command_for(KeyPress { code, ctrl: false }), command);
        if code != KeyCode::Char('c') {
            assert_eq!(command_for(KeyPress { code, ctrl: true }), command);
        }
    }
    assert_eq!(command_for(KeyPress { code: KeyCode::Char('c'), ctrl: true }), Command::Quit);
}

#[test]
fn quit_keys_set_the_quit_flag() {
    for press in [key(KeyCode::Char('q')), key(KeyCode::Esc), KeyPress { code: KeyCode::Char('c'), ctrl: true }] {
        let mut state = with_processes(2);
        assert_eq!(state.handle_key(press), Action::Nothing);
        assert!(state.should_quit());
        assert_eq!(state.selected(), 0);
        assert_eq!(state.tab(), Tab::Overview);
    }
    let mut state = with_processes(2);
    assert_eq!(press(&mut state, 'c'), Action::Nothing);
    assert!(!state.should_quit());
}

#[test]
fn selection_moves_inside_the_list() {
    let mut state = with_processes(3);
    assert_eq!(state.handle_key(key(KeyCode::Up)), Action::Nothing);
    assert_eq!(state.selected(), 0);
    assert_eq!(state.handle_key(key(KeyCode::Down)), Action::Nothing);
    assert_eq!(state.selected(), 1);
    assert_eq!(press(&mut state, 'j'), Action::Nothing);
    assert_eq!(state.selected(), 2);
    assert_eq!(state.selected_id(), Some(3));
    assert_eq!(press(&mut state, 'j'), Action::Nothing);
    assert_eq!(state.selected(), 2);
    assert_eq!(press(&mut state, 'k'), Action::Nothing);
    assert_eq!(state.selected(), 1);
    let mut empty = DashboardState::new();
    assert_eq!(empty.handle_key(key(KeyCode::Down)), Action::Nothing);
    assert_eq!(empty.selected(), 0);
}

#[test]
fn selection_change_resets_scroll_and_refreshes_the_view_on_screen() {
    let mut state = with_processes(3);
    state.handle_key(key(KeyCode::Tab));
    assert_eq!(state.tab(), Tab::Logs);
    state.handle_key(key(KeyCode::PageUp));
    assert_eq!(state.log_scroll(), 10);
    assert_eq!(state.handle_key(key(KeyCode::Down)), Action::RefreshLogs);
    assert_eq!(state.log_scroll(), 0);
    state.handle_key(key(KeyCode::PageUp));
    assert_eq!(state.handle_key(key(KeyCode::Down)), Action::RefreshLogs);
    assert_eq!(state.log_scroll(), 0);
    state.handle_key(key(KeyCode::PageUp));
    assert_eq!(state.handle_key(key(KeyCode::Down)), Action::Nothing);
    assert_eq!(state.log_scroll(), 10);
    state.handle_key(key(KeyCode::Tab));
    assert_eq!(state.tab(), Tab::InitialLogs);
    assert_eq!(state.handle_key(key(KeyCode::Up)), Action::RefreshInitialLogs);
    assert_eq!(state.selected(), 1);
}

#[test]
fn tab_key_cycles_through_the_views() {
    let mut state = with_processes(1);
    state.handle_key(key(KeyCode::PageUp));
    assert_eq!(state.handle_key(key(KeyCode::Tab)), Action::RefreshLogs);
    assert_eq!(state.tab(), Tab::Logs);
    assert_eq!(state.log_scroll(), 0);
    state.handle_key(key(KeyCode::PageUp));
    assert_eq!(state.handle_key(key(KeyCode::Tab)), Action::RefreshInitialLogs);
    assert_eq!(state.tab(), Tab::InitialLogs);
    assert_eq!(state.log_scroll(), 0);
    state.handle_key(key(KeyCode::PageUp));
    assert_eq!(state.handle_key(key(KeyCode::Tab)), Action::Nothing);
    assert_eq!(state.tab(), Tab::Overview);
    assert_eq!(state.log_scroll(), 0);
}

#[test]
fn stream_keys_work_on_the_logs_tab_only() {
    let mut state = with_processes(1);
    assert_eq!(press(&mut state, '2'), Action::Nothing);
    assert_eq!(state.log_stream(), LogStream::Stdout);
    state.handle_key(key(KeyCode::Tab));
    state.handle_key(key(KeyCode::PageUp));
    assert_eq!(press(&mut state, '2'), Action::RefreshLogs);
    assert_eq!(state.log_stream(), LogStream::Stderr);
    assert_eq!(state.log_scroll(), 0);
    assert_eq!(state.log_source(), Some(LogSource { path: "/logs/1-error.log".to_string() }));
    state.handle_key(key(KeyCode::PageUp));
    assert_eq!(press(&mut state, '1'), Action::RefreshLogs);
    assert_eq!(state.log_stream(), LogStream::Stdout);
    assert_eq!(state.log_scroll(), 0);
    assert_eq!(state.log_source(), Some(LogSource { path: "/logs/1-out.log".to_string() }));
    state.handle_key(key(KeyCode::Tab));
    state.handle_key(key(KeyCode::PageUp));
    assert_eq!(press(&mut state, '2'), Action::Nothing);
    assert_eq!(state.log_stream(), LogStream::Stdout);
    assert_eq!(state.log_scroll(), 10);
}

#[test]
fn page_keys_scroll_by_ten() {
    let mut state = DashboardState::new();
    assert_eq!(state.handle_key(key(KeyCode::PageDown)), Action::Nothing);
    assert_eq!(state.log_scroll(), 0);
    for n in 1..=3 {
        assert_eq!(state.handle_key(key(KeyCode::PageUp)), Action::Nothing);
        assert_eq!(state.log_scroll(), 10 * n);
    }
    state.handle_key(key(KeyCode::PageDown));
    assert_eq!(state.log_scroll(), 20);
    state.handle_key(key(KeyCode::PageDown));
    state.handle_key(key(KeyCode::PageDown));
    state.handle_key(key(KeyCode::PageDown));
    assert_eq!(state.log_scroll(), 0);
}

#[test]
fn lifecycle_keys_name_the_selected_process() {
    let mut state = with_processes(3);
    state.handle_key(key(KeyCode::Down));
    assert_eq!(press(&mut state, 'r'), Action::Restart { id: 2, reset_env: false });
    assert_eq!(press(&mut state, 'S'), Action::Restart { id: 2, reset_env: false });
    assert_eq!(press(&mut state, 's'), Action::Stop { id: 2 });
    assert_eq!(press(&mut state, 'f'), Action::Flush { id: 2 });
    assert_eq!(state.selected(), 1);
    let mut empty = DashboardState::new();
    for c in ['r', 'S', 's', 'f'] {
        assert_eq!(press(&mut empty, c), Action::Nothing);
    }
}

#[test]
fn flush_clears_the_log_view_at_once() {
    let mut state = with_processes(1);
    state.handle_key(key(KeyCode::Tab));
    state.refresh_logs(Some(b"a\nb\n"));
    state.handle_key(key(KeyCode::PageUp));
    assert_eq!(state.log_lines().len(), 2);
    assert_eq!(press(&mut state, 'f'), Action::Flush { id: 1 });
    assert!(state.log_lines().is_empty());
    assert_eq!(state.log_scroll(), 0);

    let mut empty = DashboardState::new();
    empty.handle_key(key(KeyCode::PageUp));
    assert_eq!(press(&mut empty, 'f'), Action::Nothing);
    assert_eq!(empty.log_scroll(), 10);
}

#[test]
fn selection_is_moved_back_into_a_shorter_list() {
    let mut state = with_processes(5);
    for _ in 0..4 {
        state.handle_key(key(KeyCode::Down));
    }
    assert_eq!(state.selected(), 4);
    state.refresh_processes(vec![proc_view(1, 1, true), proc_view(2, 2, true)], &HashMap::new(), HashMap::new());
    assert_eq!(state.selected(), 1);
    assert_eq!(state.selected_id(), Some(2));
    state.refresh_processes(vec![proc_view(7, 7, true), proc_view(8, 8, true), proc_view(9, 9, true)], &HashMap::new(), HashMap::new());
    assert_eq!(state.selected(), 1);
    state.refresh_processes(vec![proc_view(7, 7, true)], &HashMap::new(), HashMap::new());
    assert_eq!(state.selected(), 0);
}

#[test]
fn empty_list_leaves_the_selection_as_it_is() {
    let mut state = with_processes(4);
    state.handle_key(key(KeyCode::Down));
    state.handle_key(key(KeyCode::Down));
    state.refresh_processes(Vec::new(), &HashMap::new(), HashMap::new());
    assert_eq!(state.selected(), 2);
    assert_eq!(state.selected_id(), None);
    assert_eq!(state.log_source(), None);
    assert_eq!(press(&mut state, 'r'), Action::Nothing);
    state.refresh_processes(vec![proc_view(1, 1, true), proc_view(2, 2, true)], &HashMap::new(), HashMap::new());
    assert_eq!(state.selected(), 1);
}

#[test]
fn stopped_process_gets_a_zero_sample_each_tick() {
    let mut state = DashboardState::new();
    let mut usage = HashMap::new();
    usage.insert(50, ResourceUsage { cpu_percent_scaled: 1234, resident_bytes: 5 * 1024 * 1024 + 1023 });
    usage.insert(51, ResourceUsage { cpu_percent_scaled: 77, resident_bytes: 4096 });
    for tick in 1..=3usize {
        state.refresh_processes(vec![proc_view(1, 50, true), proc_view(2, 51, false), proc_view(3, 52, true)], &usage, HashMap::new());
        assert_eq!(state.history().series(1).len(), tick);
        assert_eq!(state.history().series(2).len(), tick);
        assert_eq!(state.history().series(3).len(), tick);
    }
    assert_eq!(state.history().series(1), vec![MetricSample { cpu_percent_scaled: 1234, resident_memory_kb: 5120 }; 3]);
    assert_eq!(state.history().series(2), vec![ZERO; 3]);
    assert_eq!(state.history().series(3), vec![ZERO; 3]);
}

#[test]
fn series_keeps_its_time_axis_across_a_stop() {
    let mut state = DashboardState::new();
    let mut usage = HashMap::new();
    usage.insert(9, ResourceUsage { cpu_percent_scaled: 500, resident_bytes: 2048 });
    let up = MetricSample { cpu_percent_scaled: 500, resident_memory_kb: 2 };
    state.refresh_processes(vec![proc_view(1, 9, true)], &usage, HashMap::new());
    state.refresh_processes(vec![proc_view(1, 9, false)], &usage, HashMap::new());
    state.refresh_processes(vec![proc_view(1, 9, false)], &HashMap::new(), HashMap::new());
    state.refresh_processes(vec![proc_view(1, 9, true)], &usage, HashMap::new());
    assert_eq!(state.history().series(1), vec![up, ZERO, ZERO, up]);
    state.refresh_processes(Vec::new(), &usage, HashMap::new());
    assert_eq!(state.history().series(1), vec![up, ZERO, ZERO, up]);
}

#[test]
fn history_of_a_process_is_bounded_over_many_ticks() {
    let mut state = DashboardState::new();
    for n in 0..200u64 {
        let mut usage = HashMap::new();
        usage.insert(9, ResourceUsage { cpu_percent_scaled: n, resident_bytes: n * 1024 });
        state.refresh_processes(vec![proc_view(1, 9, true)], &usage, HashMap::new());
        assert!(state.history().series(1).len() <= 60);
    }
    let expected: Vec<MetricSample> =
        (140..200).map(|n| MetricSample { cpu_percent_scaled: n, resident_memory_kb: n }).collect();
    assert_eq!(state.history().series(1), expected);
}

#[test]
fn memory_is_recorded_in_whole_kilobytes() {
    let mut state = DashboardState::new();
    let mut usage = HashMap::new();
    usage.insert(1, ResourceUsage { cpu_percent_scaled: u64::MAX, resident_bytes: u64::MAX });
    usage.insert(2, ResourceUsage { cpu_percent_scaled: 0, resident_bytes: 1023 });
    state.refresh_processes(vec![proc_view(1, 1, true), proc_view(2, 2, true)], &usage, HashMap::new());
    assert_eq!(
        state.history().series(1),
        vec![MetricSample { cpu_percent_scaled: u64::MAX, resident_memory_kb: u64::MAX / 1024 }]
    );
    assert_eq!(state.history().series(2), vec![ZERO]);
}

#[test]
fn tick_replaces_list_and_ports_and_asks_for_the_view_on_screen() {
    let mut state = DashboardState::new();
    let mut ports = HashMap::new();
    ports.insert(100, vec![8080u16, 3000]);
    assert_eq!(state.tick(vec![proc_view(1, 100, true)], &HashMap::new(), ports), Action::Nothing);
    assert_eq!(state.processes().len(), 1);
    assert_eq!(state.port_map().get(&100), Some(&vec![8080, 3000]));
    assert_eq!(state.history().series(1).len(), 1);
    state.handle_key(key(KeyCode::Tab));
    assert_eq!(state.tick(vec![proc_view(1, 100, true)], &HashMap::new(), HashMap::new()), Action::RefreshLogs);
    assert!(state.port_map().is_empty());
    state.handle_key(key(KeyCode::Tab));
    assert_eq!(state.tick(Vec::new(), &HashMap::new(), HashMap::new()), Action::RefreshInitialLogs);
    assert!(state.processes().is_empty());
    assert_eq!(state.history().series(1).len(), 2);
}

#[test]
fn log_view_is_rebuilt_from_the_file() {
    let mut state = with_processes(2);
    state.refresh_logs(Some(b"one\ntwo\n"));
    assert_eq!(state.log_lines(), &vec!["one".to_string(), "two".to_string()]);
    state.refresh_logs(Some(b"three\n"));
    assert_eq!(state.log_lines(), &vec!["three".to_string()]);
    state.refresh_logs(None);
    assert!(state.log_lines().is_empty());
}

#[test]
fn log_view_stays_empty_without_processes() {
    let mut state = DashboardState::new();
    state.refresh_logs(Some(b"one\ntwo\n"));
    assert!(state.log_lines().is_empty());
    state.refresh_initial_logs(Some(b"one\n"), Some(b"two\n"));
    assert!(state.initial_out_lines().is_empty());
    assert!(state.initial_err_lines().is_empty());
}

#[test]
fn initial_views_are_rebuilt_independently() {
    let mut state = with_processes(2);
    state.handle_key(key(KeyCode::Down));
    assert_eq!(
        state.initial_log_sources(),
        Some(InitialLogSources {
            out_path: "/logs/2-out.log".to_string(),
            out_offset: 20,
            err_path: "/logs/2-error.log".to_string(),
            err_offset: 40,
        })
    );
    state.refresh_initial_logs(Some(b"started\nlistening\n"), None);
    assert_eq!(state.initial_out_lines(), &vec!["started".to_string(), "listening".to_string()]);
    assert!(state.initial_err_lines().is_empty());
    state.refresh_initial_logs(None, Some(b"warning\n"));
    assert!(state.initial_out_lines().is_empty());
    assert_eq!(state.initial_err_lines(), &vec!["warning".to_string()]);
    let mut long = Vec::new();
    for i in 0..300 {
        long.extend_from_slice(format!("{i}\n").as_bytes());
    }
    state.refresh_initial_logs(Some(&long), Some(&long));
    assert_eq!(state.initial_out_lines().len(), 100);
    assert_eq!(state.initial_err_lines().len(), 100);
    assert_eq!(state.initial_out_lines()[99], "99");
    state.refresh_logs(Some(&long));
    assert_eq!(state.log_lines().len(), 300);
}

#[test]
fn ticks_come_once_a_second() {
    assert_eq!(TICK_MILLIS, 1000);
    assert_eq!(poll_timeout(0), 1000);
    assert_eq!(poll_timeout(1), 999);
    assert_eq!(poll_timeout(999), 1);
    assert_eq!(poll_timeout(1000), 0);
    assert_eq!(poll_timeout(u64::MAX), 0);
    assert!(!tick_due(0));
    assert!(!tick_due(999));
    assert!(tick_due(1000));
    assert!(tick_due(5000));
}
