use rmcl::keys::{KeyCode, KeyEvent, KeyModifiers};
use rmcl::logs::{handle_key, line_level, strip_log_exec, LineLevel, LogFileEntry, LogsState};

fn file(name: &str) -> LogFileEntry {
    LogFileEntry { name: name.to_owned(), path: format!("logs/{name}") }
}

fn key(code: KeyCode) -> KeyEvent {
    KeyEvent::plain(code)
}

fn loaded(names: &[&str]) -> (LogsState, Option<String>) {
    let mut state = LogsState::new();
    state.start_load("instances", "Test", 0);
    let read = state.drain_pending(Some(("Test".to_owned(), names.iter().map(|n| file(n)).collect())));
    (state, read)
}

#[test]
fn a_finished_scan_selects_the_first_file_and_asks_to_read_it() {
    let (state, read) = loaded(&["latest.log", "2026-01-01-1.log.gz"]);
    assert!(!state.loading);
    assert_eq!(state.list_state.selected, Some(0));
    assert_eq!(read.as_deref(), Some("logs/latest.log"));
    assert_eq!(state.selected_path.as_deref(), Some("logs/latest.log"));
}

#[test]
fn a_scan_for_another_instance_is_ignored() {
    let mut state = LogsState::new();
    state.start_load("instances", "Test", 0);
    assert!(state.drain_pending(Some(("Other".to_owned(), vec![file("latest.log")]))).is_none());
    assert!(state.entries.is_empty());
    assert!(state.loading);
}

#[test]
fn the_live_log_comes_first_and_clears_the_viewer() {
    let (mut state, _) = loaded(&["latest.log"]);
    state.show_file_lines("logs/latest.log", vec!["line".to_owned()]);
    assert_eq!(state.viewer_lines.len(), 1);
    state.set_live(true);
    assert_eq!(state.display_indices(), vec![None, Some(0)]);
    state.list_state.selected = Some(1);
    let outcome = handle_key(&key(KeyCode::Char('k')), &mut state);
    assert!(outcome.handled);
    assert!(outcome.read.is_none());
    assert!(state.viewer_lines.is_empty());
    assert!(state.pending_delete().is_none());
}

#[test]
fn moving_down_reads_the_next_file() {
    let (mut state, _) = loaded(&["a.log", "b.log"]);
    let outcome = handle_key(&key(KeyCode::Char('j')), &mut state);
    assert_eq!(outcome.read.as_deref(), Some("logs/b.log"));
    let outcome = handle_key(&key(KeyCode::Char('j')), &mut state);
    assert!(outcome.read.is_none());
    assert_eq!(state.list_state.selected, Some(1));
    assert_eq!(state.pending_delete().unwrap().path, "logs/b.log");
}

#[test]
fn the_viewer_scrolls_within_its_range_and_gives_the_focus_back() {
    let (mut state, _) = loaded(&["a.log"]);
    assert!(handle_key(&key(KeyCode::Enter), &mut state).handled);
    assert!(state.viewer_focused);
    state.update_viewer_scrollbar(10, 15);
    assert_eq!(state.viewer_max_scroll, 5);
    handle_key(&key(KeyCode::Char('G')), &mut state);
    assert_eq!(state.viewer_scroll, 5);
    handle_key(&key(KeyCode::Char('j')), &mut state);
    assert_eq!(state.viewer_scroll, 5);
    handle_key(&key(KeyCode::Char('k')), &mut state);
    assert_eq!(state.viewer_scroll, 4);
    let shift = KeyModifiers { shift: true, control: false, alt: false };
    assert!(!handle_key(&key(KeyCode::Char('H')), &mut state).handled);
    assert!(handle_key(&KeyEvent::new(KeyCode::Char('H'), shift), &mut state).handled);
    assert!(!state.viewer_focused);
}

#[test]
fn removing_the_last_file_closes_the_viewer() {
    let (mut state, _) = loaded(&["a.log"]);
    state.viewer_focused = true;
    assert!(state.remove_path("logs/a.log").is_none());
    assert!(state.entries.is_empty());
    assert_eq!(state.list_state.selected, None);
    assert!(!state.viewer_focused);
}

#[test]
fn rescans_wait_for_the_interval_and_a_running_instance() {
    let (mut state, _) = loaded(&["a.log"]);
    assert!(state.try_rescan(1_000, true).is_none());
    assert!(state.try_rescan(2_000, false).is_none());
    assert!(state.try_rescan(3_000, true).is_none());
    assert_eq!(state.try_rescan(4_000, true), Some(("instances".to_owned(), "Test".to_owned())));
}

#[test]
fn the_viewer_window_follows_search_and_live_tail() {
    let (mut state, _) = loaded(&["a.log"]);
    let lines: Vec<String> = (0..6).map(|i| format!("line {i}")).collect();
    assert_eq!(state.viewer_window(&lines, 4), vec![0, 1, 2, 3]);
    state.set_live(true);
    state.list_state.selected = Some(0);
    state.viewer_scroll = 1;
    assert_eq!(state.viewer_window(&lines, 4), vec![2, 3, 4, 5]);
    assert_eq!(state.viewer_scroll, 2);
    state.viewer_search.query = "line 1".to_owned();
    assert_eq!(state.viewer_window(&lines, 4), vec![1]);
}

#[test]
fn log_names_lose_every_log_extension() {
    assert_eq!(strip_log_exec("latest.log"), "latest");
    assert_eq!(strip_log_exec("a.log.log"), "a");
    assert_eq!(strip_log_exec("debug.log.gz"), "debug.log.gz");
}

#[test]
fn log_lines_are_coloured_by_severity() {
    assert_eq!(line_level("[main/error] boom"), LineLevel::Error);
    assert_eq!(line_level("[Render thread/WARN]: hm"), LineLevel::Warn);
    assert_eq!(line_level("trace: x"), LineLevel::Dim);
    assert_eq!(line_level("[STDERR]: warn"), LineLevel::Error);
    assert_eq!(line_level("hello"), LineLevel::Plain);
}
