//! The interactive state: the filter text, the cursor into the filtered
//! view, the output pane and the mode the keys are read in.

use crate::entities::{ParsedTest, ParsedTestView};
use crate::external_calls::{shell_test_command, test_command_text};
use crate::text::{
    count_lines, is_substring, is_white_space, lemma_blank_text_is_all_leading, line_count,
    pop_char, push_char, split_chars, split_on, str_contains, str_trim, trimmed,
};
use vstd::prelude::*;

verus! {

/// The mode that decides what a key means. Exactly one is active.
#[derive(Clone, Copy, Debug, PartialEq, Eq, Structural)]
pub enum InputMode {
    /// Browsing the list of tests.
    TestScrolling,
    /// Scrolling the output of the last run.
    OutputScrolling,
    /// Typing into the filter.
    FilterEditing,
    /// An error message is shown until a key dismisses it.
    ErrorMessage,
}

/// A key press, as far as the state machine tells keys apart.
#[derive(Clone, Copy, Debug, PartialEq, Eq, Structural)]
pub enum Key {
    Char(char),
    Backspace,
    Enter,
    Esc,
    Up,
    Down,
    Left,
    Right,
    Home,
    End,
    PageUp,
    PageDown,
    Tab,
    /// Any key that no mode gives a meaning.
    Other,
}

/// What the caller has to do after a key has been handled.
#[derive(Debug)]
pub enum Action {
    /// Nothing but to draw and read the next key.
    Continue,
    /// Leave the event loop.
    Quit,
    /// Run the test with this full path and hand what it printed to
    /// `App::finish_test_run`. The loading flag is already set.
    RunTest(String),
    /// Run this command line in a shell; hand a failure to `App::set_error`.
    RunInShell(String),
    /// Open this entity's file in the editor; hand a failure to
    /// `App::set_error`.
    OpenEditor(ParsedTest),
}

/// An `Action` as mathematical values.
pub enum ActionView {
    Continue,
    Quit,
    RunTest(Seq<char>),
    RunInShell(Seq<char>),
    OpenEditor(ParsedTestView),
}

impl View for Action {
    type V = ActionView;

    open spec fn view(&self) -> ActionView {
        match self {
            Action::Continue => ActionView::Continue,
            Action::Quit => ActionView::Quit,
            Action::RunTest(path) => ActionView::RunTest(path@),
            Action::RunInShell(command) => ActionView::RunInShell(command@),
            Action::OpenEditor(test) => ActionView::OpenEditor(test@),
        }
    }
}

/// How many lines of output the pane is taken to show: scrolling stops
/// when that many lines are left.
pub const OUTPUT_PANE_LINES: usize = 51;

/// How many lines the arrow keys scroll the output by.
pub const OUTPUT_SCROLL_STEP: usize = 5;

/// The tokens of a filter text: the text without the white space around
/// it, split at every single space.
pub open spec fn filter_tokens(input: Seq<char>) -> Seq<Seq<char>> {
    split_on(trimmed(input), ' ')
}

/// Every token stands somewhere in `path`. An empty token stands in every
/// path, and the order of the tokens does not matter.
pub open spec fn matches_all(tokens: Seq<Seq<char>>, path: Seq<char>) -> bool {
    forall|i: int| 0 <= i < tokens.len() ==> is_substring(#[trigger] tokens[i], path)
}

/// The test that tells whether an entity passes the filter made of `tokens`.
pub open spec fn passes(tokens: Seq<Seq<char>>) -> spec_fn(ParsedTestView) -> bool {
    |t: ParsedTestView| matches_all(tokens, t.full_path)
}

/// The filtered view: the entities whose full path holds every token, in
/// the order of discovery.
pub open spec fn filtered_view(tests: Seq<ParsedTestView>, tokens: Seq<Seq<char>>) -> Seq<
    ParsedTestView,
> {
    tests.filter(passes(tokens))
}

/// `a - b`, or zero where `b` is the larger.
pub open spec fn minus(a: nat, b: nat) -> nat {
    if a >= b {
        (a - b) as nat
    } else {
        0
    }
}

/// The smaller of two numbers.
pub open spec fn at_most(a: nat, limit: nat) -> nat {
    if a <= limit {
        a
    } else {
        limit
    }
}

/// The whole interactive state.
pub struct App {
    /// The filter text as typed.
    pub input: String,
    pub input_mode: InputMode,
    /// What the last run printed.
    pub test_stdout: String,
    /// The first line of the output that is shown.
    pub stdout_cursor: usize,
    /// Every discovered entity, in the order of discovery.
    pub tests: Vec<ParsedTest>,
    /// How many entities pass the filter.
    pub filtered_tests_count: usize,
    /// The highlighted position in the filtered view.
    pub test_cursor: usize,
    /// Set while a run is under way.
    pub loading_lock: bool,
    /// The message shown in the mode `ErrorMessage`.
    pub error_message: String,
}

/// The interactive state as mathematical values.
pub struct AppView {
    pub input: Seq<char>,
    pub input_mode: InputMode,
    pub test_stdout: Seq<char>,
    pub stdout_cursor: nat,
    pub tests: Seq<ParsedTestView>,
    pub filtered_tests_count: nat,
    pub test_cursor: nat,
    pub loading_lock: bool,
    pub error_message: Seq<char>,
}

impl AppView {
    /// The filtered view under the present filter text.
    pub open spec fn filtered(self) -> Seq<ParsedTestView> {
        filtered_view(self.tests, filter_tokens(self.input))
    }

    /// The last position the cursor may take: one less than the recorded
    /// count, or zero where nothing passes.
    pub open spec fn last_position(self) -> nat {
        minus(self.filtered_tests_count, 1)
    }

    /// The entity under the cursor, if the cursor stands on one.
    pub open spec fn selected(self) -> Option<ParsedTestView> {
        if self.test_cursor < self.filtered().len() {
            Some(self.filtered()[self.test_cursor as int])
        } else {
            None
        }
    }

    /// The state after the filter has been evaluated anew: the count is
    /// that of the filtered view, and the cursor moves back only as far as
    /// it must to stay on the view.
    pub open spec fn recomputed(self) -> AppView {
        let count = self.filtered().len();
        AppView {
            filtered_tests_count: count,
            test_cursor: at_most(self.test_cursor, minus(count, 1)),
            ..self
        }
    }

    /// The farthest the output can be scrolled.
    pub open spec fn scroll_limit(self) -> nat {
        minus(line_count(self.test_stdout), OUTPUT_PANE_LINES as nat)
    }

    /// The state after `key` in the mode `TestScrolling`: the keys that move
    /// the cursor keep it on the filtered view, two keys change the mode,
    /// and the run key sets the loading flag if the cursor is on an entity.
    pub open spec fn after_browsing_key(self, key: Key, half: nat) -> AppView {
        if key == Key::Char('2') || key == Key::Char('l') || key == Key::Right {
            AppView { input_mode: InputMode::OutputScrolling, ..self }
        } else if key == Key::Char('f') {
            AppView { input_mode: InputMode::FilterEditing, ..self }
        } else if key == Key::Up || key == Key::Char('k') {
            AppView { test_cursor: minus(self.test_cursor, 1), ..self }
        } else if key == Key::Down || key == Key::Char('j') {
            AppView { test_cursor: at_most(self.test_cursor + 1, self.last_position()), ..self }
        } else if key == Key::PageUp {
            AppView { test_cursor: minus(self.test_cursor, half), ..self }
        } else if key == Key::PageDown {
            AppView { test_cursor: at_most(self.test_cursor + half, self.last_position()), ..self }
        } else if key == Key::Home {
            AppView { test_cursor: 0, ..self }
        } else if key == Key::End {
            AppView { test_cursor: self.last_position(), ..self }
        } else if key == Key::Enter && self.selected() is Some {
            AppView { loading_lock: true, ..self }
        } else {
            self
        }
    }

    /// The state after `key` in the mode `FilterEditing`: a character or
    /// the backspace changes the filter text and the filter is evaluated
    /// anew on the changed text; the keys that end the editing return to
    /// the list.
    pub open spec fn after_editing_key(self, key: Key) -> AppView {
        match key {
            Key::Char(c) => (AppView { input: self.input.push(c), ..self }).recomputed(),
            Key::Backspace => (AppView {
                input: if self.input.len() > 0 {
                    self.input.drop_last()
                } else {
                    self.input
                },
                ..self
            }).recomputed(),
            Key::Esc | Key::Enter | Key::Up | Key::Down | Key::End | Key::Home | Key::Tab
            | Key::PageDown | Key::PageUp => AppView {
                input_mode: InputMode::TestScrolling,
                ..self
            },
            _ => self,
        }
    }

    /// The state after `key` in the mode `OutputScrolling`: the scroll keys
    /// move the first shown line between zero and `scroll_limit`, and three
    /// keys return to the list with the output scrolled back to its start.
    pub open spec fn after_output_key(self, key: Key, half: nat) -> AppView {
        if key == Key::Char('1') || key == Key::Char('h') || key == Key::Left {
            AppView { stdout_cursor: 0, input_mode: InputMode::TestScrolling, ..self }
        } else if key == Key::Up {
            AppView { stdout_cursor: minus(self.stdout_cursor, OUTPUT_SCROLL_STEP as nat), ..self }
        } else if key == Key::Down {
            AppView {
                stdout_cursor: at_most(
                    self.stdout_cursor + OUTPUT_SCROLL_STEP as nat,
                    self.scroll_limit(),
                ),
                ..self
            }
        } else if key == Key::PageUp {
            AppView { stdout_cursor: minus(self.stdout_cursor, half), ..self }
        } else if key == Key::PageDown {
            AppView { stdout_cursor: at_most(self.stdout_cursor + half, self.scroll_limit()), ..self }
        } else if key == Key::Home {
            AppView { stdout_cursor: 0, ..self }
        } else if key == Key::End {
            AppView { stdout_cursor: self.scroll_limit(), ..self }
        } else {
            self
        }
    }

    /// The state after `key` in the mode `ErrorMessage`: a dismissing key
    /// clears the message and returns to the list.
    pub open spec fn after_error_key(self, key: Key) -> AppView {
        if key == Key::Esc || key == Key::Enter || key == Key::Char('q') || key == Key::Up || key
            == Key::Down || key == Key::End || key == Key::Home || key == Key::Tab || key
            == Key::PageDown || key == Key::PageUp {
            AppView { input_mode: InputMode::TestScrolling, error_message: Seq::empty(), ..self }
        } else {
            self
        }
    }

    /// The transition function: the state after `key`, where `half` is
    /// half the height of the terminal. A key that the present mode gives
    /// no meaning leaves the state as it is.
    pub open spec fn step(self, key: Key, half: nat) -> AppView {
        match self.input_mode {
            InputMode::TestScrolling => self.after_browsing_key(key, half),
            InputMode::FilterEditing => self.after_editing_key(key),
            InputMode::OutputScrolling => self.after_output_key(key, half),
            InputMode::ErrorMessage => self.after_error_key(key),
        }
    }

    /// What the caller has to do after `key`. Only the list of tests asks
    /// for anything: to quit, or to run, run in a shell or open the entity
    /// under the cursor, where there is one.
    pub open spec fn action_for(self, key: Key) -> ActionView {
        if self.input_mode != InputMode::TestScrolling {
            ActionView::Continue
        } else if key == Key::Char('q') {
            ActionView::Quit
        } else if key == Key::Enter || key == Key::Char('r') || key == Key::Char('o') {
            match self.selected() {
                Some(test) => if key == Key::Enter {
                    ActionView::RunTest(test.full_path)
                } else if key == Key::Char('r') {
                    ActionView::RunInShell(test_command_text(test.full_path))
                } else {
                    ActionView::OpenEditor(test)
                },
                None => ActionView::Continue,
            }
        } else {
            ActionView::Continue
        }
    }

    /// The recorded count is that of the filtered view, and the cursor
    /// stands on the view or, where the view is empty, at zero.
    pub open spec fn wf(self) -> bool {
        &&& self.filtered_tests_count == self.filtered().len()
        &&& self.test_cursor <= self.last_position()
    }
}

impl View for App {
    type V = AppView;

    open spec fn view(&self) -> AppView {
        AppView {
            input: self.input@,
            input_mode: self.input_mode,
            test_stdout: self.test_stdout@,
            stdout_cursor: self.stdout_cursor as nat,
            tests: self.tests.deep_view(),
            filtered_tests_count: self.filtered_tests_count as nat,
            test_cursor: self.test_cursor as nat,
            loading_lock: self.loading_lock,
            error_message: self.error_message@,
        }
    }
}

/// A filter whose tokens are all empty lets every entity pass.
pub proof fn lemma_empty_tokens_pass_all(tests: Seq<ParsedTestView>, tokens: Seq<Seq<char>>)
    requires
        forall|i: int| 0 <= i < tokens.len() ==> (#[trigger] tokens[i]).len() == 0,
    ensures
        filtered_view(tests, tokens) == tests,
    decreases tests.len(),
{
    reveal(Seq::filter);
    if tests.len() > 0 {
        lemma_empty_tokens_pass_all(tests.drop_last(), tokens);
        let path = tests.last().full_path;
        assert forall|i: int| 0 <= i < tokens.len() implies is_substring(
            #[trigger] tokens[i],
            path,
        ) by {
            assert(path.subrange(0, 0) == tokens[i]);
            assert(crate::text::occurs_at(path, tokens[i], 0));
        }
        assert(tests.drop_last().push(tests.last()) == tests);
    }
}

/// The empty filter text has one token, the empty one.
pub proof fn lemma_tokens_of_empty_text()
    ensures
        filter_tokens(Seq::<char>::empty()) == seq![Seq::<char>::empty()],
{
    let e = Seq::<char>::empty();
    assert(e.skip(0) == e);
    assert(e.take(0) == e);
}

impl App {
    /// The state at startup: an empty filter, which every entity passes,
    /// the cursor on the first entity, the list of tests in focus.
    pub fn new(tests: Vec<ParsedTest>) -> (app: App)
        ensures
            app@ == (AppView {
                input: Seq::empty(),
                input_mode: InputMode::TestScrolling,
                test_stdout: Seq::empty(),
                stdout_cursor: 0,
                tests: tests.deep_view(),
                filtered_tests_count: tests.len() as nat,
                test_cursor: 0,
                loading_lock: false,
                error_message: Seq::empty(),
            }),
            app@.wf(),
    {
        proof {
            lemma_tokens_of_empty_text();
            lemma_empty_tokens_pass_all(tests.deep_view(), filter_tokens(Seq::empty()));
        }
        let count = tests.len();
        App {
            input: String::new(),
            input_mode: InputMode::TestScrolling,
            test_stdout: String::new(),
            stdout_cursor: 0,
            tests,
            filtered_tests_count: count,
            test_cursor: 0,
            loading_lock: false,
            error_message: String::new(),
        }
    }

    /// The tokens of the present filter text.
    pub fn load_filters_from_app(&self) -> (filters: Vec<String>)
        ensures
            filters.deep_view() == filter_tokens(self.input@),
    {
        split_chars(str_trim(self.input.as_str()), ' ')
    }

    /// Whether every one of `filters` stands somewhere in `t`.
    pub fn is_accure_all_filters(filters: &[String], t: &str) -> (r: bool)
        ensures
            r == matches_all(filters.deep_view(), t@),
    {
        let mut i: usize = 0;
        while i < filters.len()
            invariant
                i <= filters.len(),
                forall|k: int| 0 <= k < i ==> is_substring(#[trigger] filters.deep_view()[k], t@),
            decreases filters.len() - i,
        {
            if !str_contains(t, filters[i].as_str()) {
                assert(!is_substring(filters.deep_view()[i as int], t@));
                return false;
            }
            i += 1;
        }
        true
    }

    /// How many entities pass `filters`.
    fn count_passing(&self, filters: &Vec<String>) -> (n: usize)
        ensures
            n == filtered_view(self.tests.deep_view(), filters.deep_view()).len(),
    {
        let ghost tokens = filters.deep_view();
        let ghost all = self.tests.deep_view();
        let mut n: usize = 0;
        let mut i: usize = 0;
        proof {
            reveal(Seq::filter);
            assert(all.take(0).len() == 0);
        }
        while i < self.tests.len()
            invariant
                i <= self.tests.len(),
                n <= i,
                tokens == filters.deep_view(),
                all == self.tests.deep_view(),
                n == filtered_view(all.take(i as int), tokens).len(),
            decreases self.tests.len() - i,
        {
            let slice = filters.as_slice();
            let pass = App::is_accure_all_filters(slice, self.tests[i].full_path.as_str());
            proof {
                assert(slice.deep_view() == tokens);
                assert(all.take(i + 1) == all.take(i as int).push(all[i as int]));
                all.take(i as int).lemma_filter_push(all[i as int], passes(tokens));
            }
            if pass {
                n += 1;
            }
            i += 1;
        }
        assert(all.take(i as int) == all);
        n
    }

    /// Evaluates the filter anew: records how many entities pass, and moves
    /// the cursor back only as far as it must to stay on the filtered view.
    pub fn update_filtered_test_count(&mut self)
        ensures
            final(self)@ == old(self)@.recomputed(),
            final(self)@.wf(),
    {
        let filters = self.load_filters_from_app();
        let count = self.count_passing(&filters);
        self.filtered_tests_count = count;
        let last = count.saturating_sub(1);
        if self.test_cursor > last {
            self.test_cursor = last;
        }
    }

    /// The entity under the cursor, or `None` where the cursor stands on
    /// none.
    pub fn find_selected_test(&self) -> (r: Option<ParsedTest>)
        ensures
            r is Some == self@.selected() is Some,
            r matches Some(t) ==> self@.selected() == Some(t@),
    {
        let filters = self.load_filters_from_app();
        let ghost tokens = filters.deep_view();
        let ghost all = self.tests.deep_view();
        let mut seen: usize = 0;
        let mut i: usize = 0;
        proof {
            reveal(Seq::filter);
            assert(all.take(0).len() == 0);
        }
        while i < self.tests.len()
            invariant
                i <= self.tests.len(),
                seen <= i,
                seen <= self.test_cursor,
                tokens == filters.deep_view(),
                tokens == filter_tokens(self.input@),
                all == self.tests.deep_view(),
                seen == filtered_view(all.take(i as int), tokens).len(),
            decreases self.tests.len() - i,
        {
            let slice = filters.as_slice();
            let pass = App::is_accure_all_filters(slice, self.tests[i].full_path.as_str());
            proof {
                assert(slice.deep_view() == tokens);
                assert(all.take(i + 1) == all.take(i as int).push(all[i as int]));
                all.take(i as int).lemma_filter_push(all[i as int], passes(tokens));
            }
            if pass {
                if seen == self.test_cursor {
                    proof {
                        let head = all.take(i + 1);
                        let tail = all.skip(i + 1);
                        assert(head + tail == all);
                        Seq::filter_distributes_over_add(head, tail, passes(tokens));
                    }
                    return Some(self.tests[i].clone());
                }
                seen += 1;
            }
            i += 1;
        }
        assert(all.take(i as int) == all);
        None
    }

    /// Shows `message` as an error until a key dismisses it.
    pub fn set_error(&mut self, message: String)
        ensures
            final(self)@ == (AppView {
                error_message: message@,
                input_mode: InputMode::ErrorMessage,
                ..old(self)@
            }),
            old(self)@.wf() ==> final(self)@.wf(),
    {
        self.error_message = message;
        self.input_mode = InputMode::ErrorMessage;
    }

    /// Dismisses the error and returns to the list of tests.
    pub fn clean_error(&mut self)
        ensures
            final(self)@ == (AppView {
                error_message: Seq::empty(),
                input_mode: InputMode::TestScrolling,
                ..old(self)@
            }),
            old(self)@.wf() ==> final(self)@.wf(),
    {
        self.input_mode = InputMode::TestScrolling;
        self.error_message = String::new();
    }

    /// Takes in what a run printed: the standard output, or the standard
    /// error where the former is empty; the loading flag is cleared.
    pub fn finish_test_run(&mut self, stdout: String, stderr: String)
        ensures
            final(self)@ == (AppView {
                test_stdout: if stdout@.len() > 0 {
                    stdout@
                } else {
                    stderr@
                },
                loading_lock: false,
                ..old(self)@
            }),
            old(self)@.wf() ==> final(self)@.wf(),
    {
        if stdout.as_str().is_empty() {
            self.test_stdout = stderr;
        } else {
            self.test_stdout = stdout;
        }
        self.loading_lock = false;
    }

    /// Handles a key in the mode `TestScrolling`.
    fn browsing_key(&mut self, key: Key, half_of_height: usize) -> (action: Action)
        requires
            old(self).input_mode == InputMode::TestScrolling,
        ensures
            final(self)@ == old(self)@.after_browsing_key(key, half_of_height as nat),
            action@ == old(self)@.action_for(key),
    {
        let last = self.filtered_tests_count.saturating_sub(1);
        match key {
            Key::Right => {
                self.input_mode = InputMode::OutputScrolling;
            },
            Key::Up => {
                self.test_cursor = self.test_cursor.saturating_sub(1);
            },
            Key::Down => {
                self.test_cursor = forward(self.test_cursor, 1, last);
            },
            Key::PageUp => {
                self.test_cursor = self.test_cursor.saturating_sub(half_of_height);
            },
            Key::PageDown => {
                self.test_cursor = forward(self.test_cursor, half_of_height, last);
            },
            Key::Home => {
                self.test_cursor = 0;
            },
            Key::End => {
                self.test_cursor = last;
            },
            Key::Enter => {
                if let Some(test) = self.find_selected_test() {
                    self.loading_lock = true;
                    return Action::RunTest(test.full_path);
                }
            },
            Key::Char(c) => {
                if c == '2' || c == 'l' {
                    self.input_mode = InputMode::OutputScrolling;
                } else if c == 'f' {
                    self.input_mode = InputMode::FilterEditing;
                } else if c == 'q' {
                    return Action::Quit;
                } else if c == 'k' {
                    self.test_cursor = self.test_cursor.saturating_sub(1);
                } else if c == 'j' {
                    self.test_cursor = forward(self.test_cursor, 1, last);
                } else if c == 'r' {
                    if let Some(test) = self.find_selected_test() {
                        return Action::RunInShell(shell_test_command(test.full_path.as_str()));
                    }
                } else if c == 'o' {
                    if let Some(test) = self.find_selected_test() {
                        return Action::OpenEditor(test);
                    }
                }
            },
            _ => {},
        }
        Action::Continue
    }

    /// Handles a key in the mode `FilterEditing`.
    fn editing_key(&mut self, key: Key)
        ensures
            final(self)@ == old(self)@.after_editing_key(key),
    {
        match key {
            Key::Char(c) => {
                push_char(&mut self.input, c);
                self.update_filtered_test_count();
            },
            Key::Backspace => {
                let _ = pop_char(&mut self.input);
                self.update_filtered_test_count();
            },
            Key::Esc | Key::Enter | Key::Up | Key::Down | Key::End | Key::Home | Key::Tab
            | Key::PageDown | Key::PageUp => {
                self.input_mode = InputMode::TestScrolling;
            },
            _ => {},
        }
    }

    /// Handles a key in the mode `OutputScrolling`.
    fn output_key(&mut self, key: Key, half_of_height: usize)
        ensures
            final(self)@ == old(self)@.after_output_key(key, half_of_height as nat),
    {
        match key {
            Key::Left => {
                self.stdout_cursor = 0;
                self.input_mode = InputMode::TestScrolling;
            },
            Key::Char(c) => {
                if c == '1' || c == 'h' {
                    self.stdout_cursor = 0;
                    self.input_mode = InputMode::TestScrolling;
                }
            },
            Key::Up => {
                self.stdout_cursor = self.stdout_cursor.saturating_sub(OUTPUT_SCROLL_STEP);
            },
            Key::Down => {
                let limit = count_lines(self.test_stdout.as_str()).saturating_sub(OUTPUT_PANE_LINES);
                self.stdout_cursor = forward(self.stdout_cursor, OUTPUT_SCROLL_STEP, limit);
            },
            Key::PageUp => {
                self.stdout_cursor = self.stdout_cursor.saturating_sub(half_of_height);
            },
            Key::PageDown => {
                let limit = count_lines(self.test_stdout.as_str()).saturating_sub(OUTPUT_PANE_LINES);
                self.stdout_cursor = forward(self.stdout_cursor, half_of_height, limit);
            },
            Key::Home => {
                self.stdout_cursor = 0;
            },
            Key::End => {
                self.stdout_cursor = count_lines(self.test_stdout.as_str()).saturating_sub(
                    OUTPUT_PANE_LINES,
                );
            },
            _ => {},
        }
    }

    /// Handles a key in the mode `ErrorMessage`.
    fn error_key(&mut self, key: Key)
        ensures
            final(self)@ == old(self)@.after_error_key(key),
    {
        match key {
            Key::Esc | Key::Enter | Key::Up | Key::Down | Key::End | Key::Home | Key::Tab
            | Key::PageDown | Key::PageUp => {
                self.clean_error();
            },
            Key::Char(c) => {
                if c == 'q' {
                    self.clean_error();
                }
            },
            _ => {},
        }
    }

    /// One transition of the state machine: takes the state to the one that
    /// follows `key` in the present mode, and says what the caller has to
    /// do. `half_of_height` is half the height of the terminal, by which
    /// the page keys move.
    pub fn handle_key(&mut self, key: Key, half_of_height: usize) -> (action: Action)
        ensures
            final(self)@ == old(self)@.step(key, half_of_height as nat),
            action@ == old(self)@.action_for(key),
            old(self)@.wf() ==> final(self)@.wf(),
    {
        proof {
            if self@.wf() {
                lemma_step_keeps_wf(self@, key, half_of_height as nat);
            }
        }
        match self.input_mode {
            InputMode::TestScrolling => self.browsing_key(key, half_of_height),
            InputMode::FilterEditing => {
                self.editing_key(key);
                Action::Continue
            },
            InputMode::OutputScrolling => {
                self.output_key(key, half_of_height);
                Action::Continue
            },
            InputMode::ErrorMessage => {
                self.error_key(key);
                Action::Continue
            },
        }
    }
}

/// `cursor` moved forward by `by`, but no farther than `limit`.
fn forward(cursor: usize, by: usize, limit: usize) -> (r: usize)
    ensures
        r == at_most((cursor + by) as nat, limit as nat),
{
    let moved = cursor.saturating_add(by);
    if moved <= limit {
        moved
    } else {
        limit
    }
}

/// Evaluating the filter twice on an unchanged state gives what evaluating
/// it once gives: the same count and the same cursor.
pub proof fn lemma_recompute_idempotent(s: AppView)
    ensures
        s.recomputed().recomputed() == s.recomputed(),
        s.recomputed().wf(),
{
}

/// Where every token of the filter text is empty, evaluating the filter
/// counts every entity.
pub proof fn lemma_empty_filter_counts_all(s: AppView)
    requires
        forall|i: int|
            0 <= i < filter_tokens(s.input).len() ==> (#[trigger] filter_tokens(s.input)[i]).len()
                == 0,
    ensures
        s.recomputed().filtered_tests_count == s.tests.len(),
{
    lemma_empty_tokens_pass_all(s.tests, filter_tokens(s.input));
}

/// A filter text of white space only, the empty text among them, has one
/// token, the empty one; evaluating it counts every entity.
pub proof fn lemma_blank_filter_counts_all(s: AppView)
    requires
        forall|i: int| 0 <= i < s.input.len() ==> is_white_space(#[trigger] s.input[i]),
    ensures
        filter_tokens(s.input) == seq![Seq::<char>::empty()],
        s.filtered() == s.tests,
        s.recomputed().filtered_tests_count == s.tests.len(),
{
    lemma_blank_text_is_all_leading(s.input);
    lemma_tokens_of_empty_text();
    lemma_empty_tokens_pass_all(s.tests, filter_tokens(s.input));
}

/// No key takes a well-formed state to one that is not: after every
/// transition the recorded count is that of the filtered view and the
/// cursor stands on it, or at zero where the view is empty.
pub proof fn lemma_step_keeps_wf(s: AppView, key: Key, half: nat)
    requires
        s.wf(),
    ensures
        s.step(key, half).wf(),
{
}

/// The state after a sequence of keys, each with the half height of the
/// terminal at that moment.
pub open spec fn after_keys(s: AppView, keys: Seq<(Key, nat)>) -> AppView
    decreases keys.len(),
{
    if keys.len() == 0 {
        s
    } else {
        after_keys(s, keys.drop_last()).step(keys.last().0, keys.last().1)
    }
}

/// Every state that a sequence of keys reaches from a well-formed one is
/// well formed: the cursor never leaves the filtered view, whatever is
/// typed and wherever the cursor is sent.
pub proof fn lemma_reachable_states_wf(s: AppView, keys: Seq<(Key, nat)>)
    requires
        s.wf(),
    ensures
        after_keys(s, keys).wf(),
        after_keys(s, keys).test_cursor <= minus(after_keys(s, keys).filtered().len(), 1),
    decreases keys.len(),
{
    if keys.len() > 0 {
        lemma_reachable_states_wf(s, keys.drop_last());
        lemma_step_keeps_wf(after_keys(s, keys.drop_last()), keys.last().0, keys.last().1);
    }
}

} // verus!
