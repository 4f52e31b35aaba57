use pmc::process::{truncate_str, InitialLogAnchor, LogPaths, ProcessStatus, ProcessView};

fn view(running: bool, crashed: bool) -> ProcessView {
    ProcessView {
        id: 1,
        pid: 2,
        name: "n".to_string(),
        running,
        crashed,
        script: "s".to_string(),
        path: "p".to_string(),
        started: 0,
        restarts: 0,
        logs: LogPaths { out: "o".to_string(), error: "e".to_string() },
        initial_logs: InitialLogAnchor { start_pos_out: 0, start_pos_error: 0 },
    }
}

fn sliced(s: &str, max: usize) -> String {
    if s.len() > max {
        format!("{}...", &s[..max.saturating_sub(3)])
    } else {
        s.to_string()
    }
}

#[test]
fn running_process_is_online_whatever_else_is_set() {
    assert_eq!(view(true, false).status(), ProcessStatus::Online);
    assert_eq!(view(true, true).status(), ProcessStatus::Online);
    assert_eq!(view(false, true).status(), ProcessStatus::Crashed);
    assert_eq!(view(false, false).status(), ProcessStatus::Stopped);
}

#[test]
fn status_words() {
    assert_eq!(ProcessStatus::Online.label(), "online");
    assert_eq!(ProcessStatus::Crashed.label(), "crashed");
    assert_eq!(ProcessStatus::Stopped.label(), "stopped");
    assert_eq!(ProcessStatus::Online.list_label(), "online ");
    assert_eq!(ProcessStatus::Crashed.list_label(), "crashed");
    assert_eq!(ProcessStatus::Stopped.list_label(), "stopped");
}

#[test]
fn short_text_is_not_cut() {
    assert_eq!(truncate_str("", 15), "");
    assert_eq!(truncate_str("api", 15), "api");
    assert_eq!(truncate_str("exactly-fifteen", 15), "exactly-fifteen");
    assert_eq!(truncate_str("", 0), "");
}

#[test]
fn long_text_is_cut_three_short_of_the_width() {
    assert_eq!(truncate_str("sixteen-letters!", 15), "sixteen-lett...");
    assert_eq!(truncate_str("a-very-long-process-name", 15), "a-very-long-...");
    assert_eq!(truncate_str("abcdef", 5), "ab...");
    assert_eq!(truncate_str("abcdef", 3), "...");
    assert_eq!(truncate_str("abcdef", 2), "...");
    assert_eq!(truncate_str("abcdef", 0), "...");
}

#[test]
fn truncation_agrees_with_slicing_where_slicing_works() {
    let texts = ["", "a", "hello world, this is long", "ünïcödé-näme-äöü", "日本語のプロセス名前", "ab日本語"];
    for text in texts {
        for max in 0..40usize {
            let cut = max.saturating_sub(3);
            if text.len() <= max || text.is_char_boundary(cut) {
                assert_eq!(truncate_str(text, max), sliced(text, max), "{text} {max}");
            }
        }
    }
}

#[test]
fn cut_never_splits_a_character() {
    assert_eq!(truncate_str("日本語のプロセス", 8), "日...");
    assert_eq!(truncate_str("日本語のプロセス", 7), "日...");
    assert_eq!(truncate_str("日本語のプロセス", 6), "日...");
    assert_eq!(truncate_str("日本語のプロセス", 5), "...");
    assert_eq!(truncate_str("aé", 2), "...");
    assert_eq!(truncate_str("aéz", 3), "...");
    assert_eq!(truncate_str("aézz", 4), "a...");
    assert_eq!(truncate_str("aézzzz", 5), "a...");
    assert_eq!(truncate_str("aézzzz", 6), "aé...");
}
