use pytexp::app::{Action, App, InputMode, Key, OUTPUT_PANE_LINES, OUTPUT_SCROLL_STEP};
use pytexp::entities::ParsedTest;

fn tests(n: usize) -> Vec<ParsedTest> {
    (0..n).map(|i| ParsedTest::new(format!("test_{}", i), i + 1, "tests/test_m.py")).collect()
}

fn lines(n: usize) -> String {
    "line\n".repeat(n)
}

fn snapshot(app: &App) -> (String, InputMode, String, usize, usize, usize, usize, bool, String) {
    (
        app.input.clone(),
        app.input_mode,
        app.test_stdout.clone(),
        app.stdout_cursor,
        app.tests.len(),
        app.filtered_tests_count,
        app.test_cursor,
        app.loading_lock,
        app.error_message.clone(),
    )
}

#[test]
fn browsing_moves_the_cursor_within_the_view() {
    let mut app = App::new(tests(10));
    assert!(matches!(app.handle_key(Key::Up, 4), Action::Continue));
    assert_eq!(app.test_cursor, 0);
    app.handle_key(Key::Down, 4);
    assert_eq!(app.test_cursor, 1);
    app.handle_key(Key::Char('j'), 4);
    assert_eq!(app.test_cursor, 2);
    app.handle_key(Key::Char('k'), 4);
    assert_eq!(app.test_cursor, 1);
    app.handle_key(Key::PageDown, 4);
    assert_eq!(app.test_cursor, 5);
    app.handle_key(Key::PageDown, 4);
    assert_eq!(app.test_cursor, 9);
    app.handle_key(Key::PageDown, 4);
    assert_eq!(app.test_cursor, 9);
    app.handle_key(Key::Down, 4);
    assert_eq!(app.test_cursor, 9);
    app.handle_key(Key::PageUp, 4);
    assert_eq!(app.test_cursor, 5);
    app.handle_key(Key::PageUp, 7);
    assert_eq!(app.test_cursor, 0);
    app.handle_key(Key::End, 4);
    assert_eq!(app.test_cursor, 9);
    app.handle_key(Key::Home, 4);
    assert_eq!(app.test_cursor, 0);
    app.handle_key(Key::PageDown, usize::MAX);
    assert_eq!(app.test_cursor, 9);
    assert_eq!(app.input_mode, InputMode::TestScrolling);
    assert_eq!(app.filtered_tests_count, 10);
}

#[test]
fn browsing_changes_mode() {
    for key in [Key::Char('2'), Key::Char('l'), Key::Right] {
        let mut app = App::new(tests(3));
        assert!(matches!(app.handle_key(key, 4), Action::Continue));
        assert_eq!(app.input_mode, InputMode::OutputScrolling);
    }
    let mut app = App::new(tests(3));
    assert!(matches!(app.handle_key(Key::Char('f'), 4), Action::Continue));
    assert_eq!(app.input_mode, InputMode::FilterEditing);
}

#[test]
fn browsing_quits() {
    let mut app = App::new(tests(3));
    let before = snapshot(&app);
    assert!(matches!(app.handle_key(Key::Char('q'), 4), Action::Quit));
    assert_eq!(snapshot(&app), before);
}

#[test]
fn browsing_ignores_other_keys() {
    for key in [Key::Backspace, Key::Esc, Key::Left, Key::Tab, Key::Other, Key::Char('x'), Key::Char('1'), Key::Char('h')] {
        let mut app = App::new(tests(3));
        app.test_cursor = 1;
        let before = snapshot(&app);
        assert!(matches!(app.handle_key(key, 4), Action::Continue));
        assert_eq!(snapshot(&app), before);
    }
}

#[test]
fn run_key_asks_for_a_run_and_sets_the_loading_flag() {
    let mut app = App::new(tests(3));
    app.test_cursor = 2;
    match app.handle_key(Key::Enter, 4) {
        Action::RunTest(path) => assert_eq!(path, "tests/test_m.py::test_2"),
        other => panic!("{:?}", other),
    }
    assert!(app.loading_lock);
    assert_eq!(app.input_mode, InputMode::TestScrolling);
    app.finish_test_run("ok\n".to_string(), "warning\n".to_string());
    assert!(!app.loading_lock);
    assert_eq!(app.test_stdout, "ok\n");
    app.finish_test_run("".to_string(), "failed to start\n".to_string());
    assert_eq!(app.test_stdout, "failed to start\n");
    assert!(!app.loading_lock);
}

#[test]
fn shell_and_editor_keys_name_the_selected_test() {
    let mut app = App::new(tests(3));
    app.test_cursor = 1;
    match app.handle_key(Key::Char('r'), 4) {
        Action::RunInShell(command) => {
            assert_eq!(command, "pytest tests/test_m.py::test_1 -vvv -p no:warnings; exec zsh")
        }
        other => panic!("{:?}", other),
    }
    assert!(!app.loading_lock);
    match app.handle_key(Key::Char('o'), 4) {
        Action::OpenEditor(test) => {
            assert_eq!(test.full_path, "tests/test_m.py::test_1");
            assert_eq!(test.row_location, 2);
            assert_eq!(test.test_name, "test_1");
        }
        other => panic!("{:?}", other),
    }
    assert_eq!(app.input_mode, InputMode::TestScrolling);
}

#[test]
fn nothing_selected_nothing_asked() {
    for key in [Key::Enter, Key::Char('r'), Key::Char('o')] {
        let mut app = App::new(vec![]);
        let before = snapshot(&app);
        assert!(matches!(app.handle_key(key, 4), Action::Continue));
        assert_eq!(snapshot(&app), before);
    }
}

#[test]
fn typing_filters_on_the_new_text() {
    let mut app = App::new(tests(12));
    app.test_cursor = 11;
    app.handle_key(Key::Char('f'), 4);
    assert!(matches!(app.handle_key(Key::Char('_'), 4), Action::Continue));
    assert_eq!(app.input, "_");
    assert_eq!(app.filtered_tests_count, 12);
    assert_eq!(app.test_cursor, 11);
    app.handle_key(Key::Char('1'), 4);
    assert_eq!(app.input, "_1");
    assert_eq!(app.filtered_tests_count, 3);
    assert_eq!(app.test_cursor, 2);
    app.handle_key(Key::Char('1'), 4);
    assert_eq!(app.input, "_11");
    assert_eq!(app.filtered_tests_count, 1);
    assert_eq!(app.test_cursor, 0);
    app.handle_key(Key::Char('x'), 4);
    assert_eq!(app.filtered_tests_count, 0);
    assert_eq!(app.test_cursor, 0);
    app.handle_key(Key::Backspace, 4);
    assert_eq!(app.input, "_11");
    assert_eq!(app.filtered_tests_count, 1);
    app.handle_key(Key::Backspace, 4);
    app.handle_key(Key::Backspace, 4);
    app.handle_key(Key::Backspace, 4);
    assert_eq!(app.input, "");
    assert_eq!(app.filtered_tests_count, 12);
    app.handle_key(Key::Backspace, 4);
    assert_eq!(app.input, "");
    assert_eq!(app.filtered_tests_count, 12);
    assert_eq!(app.test_cursor, 0);
    assert_eq!(app.input_mode, InputMode::FilterEditing);
}

#[test]
fn typed_keys_are_text_while_editing() {
    let mut app = App::new(tests(3));
    app.handle_key(Key::Char('f'), 4);
    for c in ['q', 'f', ' ', 'j'] {
        assert!(matches!(app.handle_key(Key::Char(c), 4), Action::Continue));
    }
    assert_eq!(app.input, "qf j");
    assert_eq!(app.input_mode, InputMode::FilterEditing);
    assert_eq!(app.filtered_tests_count, 0);
}

#[test]
fn editing_ends_on_the_commit_keys() {
    for key in [Key::Esc, Key::Enter, Key::Up, Key::Down, Key::End, Key::Home, Key::Tab, Key::PageDown, Key::PageUp] {
        let mut app = App::new(tests(3));
        app.handle_key(Key::Char('f'), 4);
        app.handle_key(Key::Char('2'), 4);
        let mut expected = snapshot(&app);
        expected.1 = InputMode::TestScrolling;
        assert!(matches!(app.handle_key(key, 4), Action::Continue));
        assert_eq!(snapshot(&app), expected);
    }
    for key in [Key::Left, Key::Right, Key::Other] {
        let mut app = App::new(tests(3));
        app.handle_key(Key::Char('f'), 4);
        let before = snapshot(&app);
        assert!(matches!(app.handle_key(key, 4), Action::Continue));
        assert_eq!(snapshot(&app), before);
    }
}

#[test]
fn output_scrolls_between_zero_and_the_limit() {
    let mut app = App::new(tests(3));
    app.finish_test_run(lines(OUTPUT_PANE_LINES + 12), String::new());
    app.handle_key(Key::Right, 4);
    assert_eq!(app.input_mode, InputMode::OutputScrolling);
    app.handle_key(Key::Up, 4);
    assert_eq!(app.stdout_cursor, 0);
    app.handle_key(Key::Down, 4);
    assert_eq!(app.stdout_cursor, OUTPUT_SCROLL_STEP);
    app.handle_key(Key::Down, 4);
    assert_eq!(app.stdout_cursor, 10);
    app.handle_key(Key::Down, 4);
    assert_eq!(app.stdout_cursor, 12);
    app.handle_key(Key::PageUp, 4);
    assert_eq!(app.stdout_cursor, 8);
    app.handle_key(Key::PageDown, 3);
    assert_eq!(app.stdout_cursor, 11);
    app.handle_key(Key::PageDown, 3);
    assert_eq!(app.stdout_cursor, 12);
    app.handle_key(Key::Up, 4);
    assert_eq!(app.stdout_cursor, 7);
    app.handle_key(Key::Home, 4);
    assert_eq!(app.stdout_cursor, 0);
    app.handle_key(Key::End, 4);
    assert_eq!(app.stdout_cursor, 12);
    app.handle_key(Key::PageUp, 40);
    assert_eq!(app.stdout_cursor, 0);
    app.handle_key(Key::PageDown, usize::MAX);
    assert_eq!(app.stdout_cursor, 12);
    assert_eq!(app.input_mode, InputMode::OutputScrolling);
}

#[test]
fn short_output_does_not_scroll() {
    let mut app = App::new(tests(3));
    app.finish_test_run(lines(OUTPUT_PANE_LINES), String::new());
    app.handle_key(Key::Right, 4);
    for key in [Key::Down, Key::PageDown, Key::End] {
        app.handle_key(key, 4);
        assert_eq!(app.stdout_cursor, 0);
    }
}

#[test]
fn leaving_the_output_scrolls_it_back() {
    for key in [Key::Char('1'), Key::Char('h'), Key::Left] {
        let mut app = App::new(tests(3));
        app.finish_test_run(lines(100), String::new());
        app.handle_key(Key::Right, 4);
        app.handle_key(Key::End, 4);
        assert_eq!(app.stdout_cursor, 49);
        assert!(matches!(app.handle_key(key, 4), Action::Continue));
        assert_eq!(app.stdout_cursor, 0);
        assert_eq!(app.input_mode, InputMode::TestScrolling);
    }
}

#[test]
fn output_ignores_keys_it_has_no_use_for() {
    for key in [Key::Char('q'), Key::Char('f'), Key::Enter, Key::Esc, Key::Tab, Key::Right, Key::Backspace, Key::Other, Key::Char('j')] {
        let mut app = App::new(tests(3));
        app.finish_test_run(lines(100), String::new());
        app.handle_key(Key::Right, 4);
        app.handle_key(Key::Down, 4);
        let before = snapshot(&app);
        assert!(matches!(app.handle_key(key, 4), Action::Continue));
        assert_eq!(snapshot(&app), before);
    }
}

#[test]
fn error_is_shown_until_dismissed() {
    for key in [Key::Esc, Key::Enter, Key::Char('q'), Key::Up, Key::Down, Key::End, Key::Home, Key::Tab, Key::PageDown, Key::PageUp] {
        let mut app = App::new(tests(3));
        app.test_cursor = 2;
        app.set_error("EDITOR is not set".to_string());
        assert_eq!(app.input_mode, InputMode::ErrorMessage);
        assert_eq!(app.error_message, "EDITOR is not set");
        assert!(matches!(app.handle_key(Key::Char('x'), 4), Action::Continue));
        assert!(matches!(app.handle_key(Key::Left, 4), Action::Continue));
        assert_eq!(app.input_mode, InputMode::ErrorMessage);
        assert_eq!(app.error_message, "EDITOR is not set");
        assert!(matches!(app.handle_key(key, 4), Action::Continue));
        assert_eq!(app.input_mode, InputMode::TestScrolling);
        assert_eq!(app.error_message, "");
        assert_eq!(app.test_cursor, 2);
    }
}

#[test]
fn clean_error_returns_to_the_list() {
    let mut app = App::new(tests(1));
    app.set_error("boom".to_string());
    app.clean_error();
    assert_eq!(app.input_mode, InputMode::TestScrolling);
    assert_eq!(app.error_message, "");
}

#[test]
fn cursor_stays_on_the_view_through_any_keys() {
    let keys = [
        Key::Char('f'), Key::Char('t'), Key::Char('_'), Key::Char('1'), Key::Enter,
        Key::End, Key::PageDown, Key::Char('f'), Key::Char('9'), Key::Esc, Key::Down,
        Key::Char('f'), Key::Backspace, Key::Backspace, Key::Backspace, Key::Backspace,
        Key::Backspace, Key::Tab, Key::End, Key::Char('f'), Key::Char('7'), Key::Char(' '),
        Key::Char('z'), Key::Up, Key::PageUp, Key::Home, Key::End, Key::Right, Key::Down,
        Key::Left, Key::Char('j'), Key::Char('k'),
    ];
    let mut app = App::new(tests(25));
    for (step, key) in keys.iter().enumerate() {
        app.handle_key(*key, step % 7);
        let last = app.filtered_tests_count.saturating_sub(1);
        assert!(app.test_cursor <= last, "step {}", step);
        let tokens = app.load_filters_from_app();
        let matching = app.tests.iter().filter(|t| App::is_accure_all_filters(&tokens, &t.full_path)).count();
        assert_eq!(app.filtered_tests_count, matching, "step {}", step);
    }
}
