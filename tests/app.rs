use diff_tool::app::{update, App, AppState, RunningState};
use diff_tool::cli::{git_diff_args, Args};
use diff_tool::config::AppConfig;
use diff_tool::diff::Diff;
use diff_tool::keys::Key;
use diff_tool::message::Message;

fn app_with(text: &str) -> App {
    let mut app = App::new(AppConfig::default_config());
    app.set_diff(text);
    app
}

fn selection(app: &App) -> (Option<usize>, Option<usize>) {
    (app.diff_state().old_diff(), app.diff_state().current_diff())
}

#[test]
fn new_app_runs_with_cursors_on_top() {
    let app = App::new(AppConfig::default_config());
    assert_eq!(*app.running_state(), RunningState::Running);
    assert_eq!(selection(&app), (Some(0), Some(0)));
    assert_eq!(app.console_state(), Some(0));
    assert!(app.diff().is_none());
    assert_eq!(RunningState::default(), RunningState::Running);
}

#[test]
fn navigation_moves_both_cursors() {
    let mut app = app_with("@@ x @@\n a\n-b\n+c");
    assert!(app.diff().is_some());
    assert_eq!(update(&mut app, Message::NextRow), None);
    assert_eq!(selection(&app), (Some(1), Some(1)));
    update(&mut app, Message::NextRow);
    assert_eq!(selection(&app), (Some(0), Some(0)));
    update(&mut app, Message::PrevRow);
    assert_eq!(selection(&app), (Some(1), Some(1)));
    update(&mut app, Message::FirstRow);
    assert_eq!(selection(&app), (Some(0), Some(0)));
    update(&mut app, Message::LastRow);
    assert_eq!(selection(&app), (Some(1), Some(1)));
}

#[test]
fn navigation_on_empty_diff_does_not_panic() {
    let mut app = app_with("");
    update(&mut app, Message::NextRow);
    assert_eq!(selection(&app), (None, None));
    update(&mut app, Message::LastRow);
    assert_eq!(selection(&app), (None, None));
    update(&mut app, Message::PrevRow);
    assert_eq!(selection(&app), (None, None));
}

#[test]
fn new_diff_puts_cursors_back_on_top() {
    let mut app = app_with("@@ x @@\n a\n b\n c");
    update(&mut app, Message::LastRow);
    assert_eq!(selection(&app), (Some(2), Some(2)));
    app.set_diff("@@ x @@\n a");
    assert_eq!(selection(&app), (Some(0), Some(0)));
    update(&mut app, Message::PrevRow);
    assert_eq!(selection(&app), (Some(0), Some(0)));
}

#[test]
fn quit_stops_the_viewer() {
    let mut app = app_with("@@ x @@\n a");
    update(&mut app, Message::Quit);
    assert_eq!(*app.running_state(), RunningState::Done);
}

#[test]
fn console_selection_follows_last_line() {
    let mut app = app_with("@@ x @@\n a");
    app.send_to_console("one".to_string());
    app.send_to_console("two".to_string());
    assert_eq!(app.console_state(), Some(0));
    update(&mut app, Message::NextRow);
    assert_eq!(app.console_state(), Some(1));
    assert_eq!(app.console(), &vec!["one".to_string(), "two".to_string()]);
}

#[test]
fn keys_map_to_commands() {
    let app = App::new(AppConfig::default_config());
    assert_eq!(app.handle_key(&Key::Char('j')), Some(Message::NextRow));
    assert_eq!(app.handle_key(&Key::Shift('G')), Some(Message::LastRow));
    assert_eq!(app.handle_key(&Key::Ctrl('c')), Some(Message::Quit));
    assert_eq!(app.handle_key(&Key::Char('z')), None);
    assert_eq!(app.config().keymap().get("q"), Some(Message::Quit));
}

#[test]
fn app_state_counts_ticks_and_keeps_log() {
    let mut state = AppState::new(Diff::parse_diff("@@ x @@\n a"));
    assert_eq!(state.count_tick(), Some(0));
    state.incr_tick();
    state.incr_tick();
    assert_eq!(state.count_tick(), Some(2));
    state.send_to_console("hello".to_string());
    assert_eq!(state.console(), Some(&vec!["hello".to_string()]));
    assert_eq!(state.diff().unwrap().old_diff().len(), 1);
}

#[test]
fn git_arguments() {
    assert_eq!(git_diff_args("src/a.rs", None), vec!["diff", "-U1000", "src/a.rs"]);
    assert_eq!(
        git_diff_args("a.rs", Some("/tmp/repo")),
        vec!["-C", "/tmp/repo", "diff", "-U1000", "a.rs"]
    );
}

#[test]
fn command_line_arguments() {
    let args = Args::new(true, "/tmp/repo/a.rs".to_string());
    assert!(args.change_dir());
    assert_eq!(args.path(), "/tmp/repo/a.rs");
}
