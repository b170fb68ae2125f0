//! What the screen shows of the state: which entities of the filtered view
//! are in the window of the list, how a long path is broken into lines, and
//! which lines of the output are in the window of the output pane. Drawing
//! itself is the caller's.

use crate::app::{
    at_most, filter_tokens, filtered_view, minus, passes, App, AppView, InputMode,
};
use crate::text::{chunks_of, decimal, push_decimal, wrap_chars};
use vstd::prelude::*;
use vstd::string::*;
use vstd::utf8::encode_utf8;

verus! {

/// One entity in the window of the list: the lines its full path is drawn
/// on, and whether the cursor is on it.
#[derive(Debug)]
pub struct ListRow {
    pub lines: Vec<String>,
    pub selected: bool,
}

/// A `ListRow` as mathematical values.
pub struct ListRowView {
    pub lines: Seq<Seq<char>>,
    pub selected: bool,
}

impl View for ListRow {
    type V = ListRowView;

    open spec fn view(&self) -> ListRowView {
        ListRowView { lines: self.lines.deep_view(), selected: self.selected }
    }
}

impl DeepView for ListRow {
    type V = ListRowView;

    open spec fn deep_view(&self) -> ListRowView {
        self@
    }
}

/// The lines a full path is drawn on in a column `width` characters wide:
/// the path itself where its bytes are no more than `width`, else its
/// characters in pieces of `width`.
pub open spec fn path_lines(path: Seq<char>, width: nat) -> Seq<Seq<char>> {
    if encode_utf8(path).len() > width {
        chunks_of(path, width)
    } else {
        seq![path]
    }
}

/// The position in the filtered view of the first entity in a window
/// `height` rows high: half a window above the cursor, or the start.
pub open spec fn window_start(cursor: nat, height: nat) -> nat {
    minus(cursor, height / 2)
}

/// The position after the last entity in the window.
pub open spec fn window_end(cursor: nat, height: nat, count: nat) -> nat {
    at_most(window_start(cursor, height) + height, count)
}

/// The rows of the list in a window `height` rows high and `width`
/// characters wide: the entities of the filtered view from `window_start`
/// on, as many as the window has rows, each with its path broken into lines
/// and the one under the cursor marked.
pub open spec fn visible_rows(app: AppView, height: nat, width: nat) -> Seq<ListRowView> {
    let start = window_start(app.test_cursor, height);
    let end = window_end(app.test_cursor, height, app.filtered().len());
    Seq::new(
        minus(end, start),
        |k: int|
            ListRowView {
                lines: path_lines(app.filtered()[start + k].full_path, width),
                selected: start + k == app.test_cursor,
            },
    )
}

/// Breaks a full path into the lines it is drawn on.
pub fn lines_of_path(path: &str, width: usize) -> (lines: Vec<String>)
    requires
        width > 0,
    ensures
        lines.deep_view() == path_lines(path@, width as nat),
{
    if path.as_bytes().len() > width {
        wrap_chars(path, width)
    } else {
        let mut lines: Vec<String> = Vec::new();
        lines.push(path.to_owned());
        assert(lines.deep_view() == seq![path@]);
        lines
    }
}

impl App {
    /// The rows of the list of tests in a window `height` rows high and
    /// `width` characters wide.
    pub fn visible_tests(&self, height: usize, width: usize) -> (rows: Vec<ListRow>)
        requires
            width > 0,
        ensures
            rows.deep_view() == visible_rows(self@, height as nat, width as nat),
    {
        let start = self.test_cursor.saturating_sub(height / 2);
        let stop = start.saturating_add(height);
        let filters = self.load_filters_from_app();
        let ghost tokens = filters.deep_view();
        let ghost all = self.tests.deep_view();
        let ghost whole = filtered_view(all, tokens);
        let ghost wanted = visible_rows(self@, height as nat, width as nat);
        let mut rows: Vec<ListRow> = Vec::new();
        let mut seen: usize = 0;
        let mut i: usize = 0;
        proof {
            reveal(Seq::filter);
            assert(all.take(0).len() == 0);
            all.lemma_filter_len(passes(tokens));
        }
        while i < self.tests.len()
            invariant
                i <= self.tests.len(),
                seen <= i,
                width > 0,
                start == window_start(self.test_cursor as nat, height as nat),
                stop == at_most((start + height) as nat, usize::MAX as nat),
                tokens == filters.deep_view(),
                tokens == filter_tokens(self.input@),
                all == self.tests.deep_view(),
                whole == filtered_view(all, tokens),
                whole.len() <= all.len(),
                wanted == visible_rows(self@, height as nat, width as nat),
                seen == filtered_view(all.take(i as int), tokens).len(),
                filtered_view(all.take(i as int), tokens) == whole.take(seen as int),
                rows.len() == minus(at_most(seen as nat, (start + height) as nat), start as nat),
                rows.deep_view() == wanted.take(rows.len() as int),
            decreases self.tests.len() - i,
        {
            let slice = filters.as_slice();
            let pass = App::is_accure_all_filters(slice, self.tests[i].full_path.as_str());
            proof {
                assert(slice.deep_view() == tokens);
                let head = all.take(i + 1);
                let tail = all.skip(i + 1);
                assert(head == all.take(i as int).push(all[i as int]));
                all.take(i as int).lemma_filter_push(all[i as int], passes(tokens));
                assert(head + tail == all);
                Seq::filter_distributes_over_add(head, tail, passes(tokens));
                assert(filtered_view(head, tokens) == whole.take(filtered_view(head, tokens).len() as int));
            }
            if pass {
                if seen >= start && seen < stop {
                    let lines = lines_of_path(self.tests[i].full_path.as_str(), width);
                    let row = ListRow { lines, selected: seen == self.test_cursor };
                    let ghost before = rows.deep_view();
                    rows.push(row);
                    proof {
                        assert(rows.deep_view() == before.push(row@));
                        assert(whole[seen as int] == all[i as int]);
                        assert(wanted[rows.len() - 1] == row@);
                        assert(wanted.take(rows.len() as int) == wanted.take(rows.len() - 1).push(
                            row@,
                        ));
                    }
                }
                seen += 1;
            }
            i += 1;
        }
        proof {
            assert(all.take(i as int) == all);
            assert(rows.len() == wanted.len());
            assert(wanted.take(wanted.len() as int) == wanted);
        }
        rows
    }

    /// The label beside the filter: how many entities pass it, a slash, and
    /// how many there are.
    pub fn filter_counter(&self) -> (label: String)
        ensures
            label@ == decimal(self.filtered_tests_count as nat) + seq!['/'] + decimal(
                self.tests.len() as nat,
            ),
    {
        let mut label = String::new();
        push_decimal(&mut label, self.filtered_tests_count);
        proof {
            reveal_strlit("/");
        }
        label.append("/");
        push_decimal(&mut label, self.tests.len());
        label
    }
}

/// The lines of the output in a window `height` rows high, as a range of
/// line numbers: from the scroll position, or from the end of the output
/// where the position is beyond it, for `height` lines or to the end.
pub fn output_window(cursor: usize, height: usize, line_count: usize) -> (window: (usize, usize))
    ensures
        window.0 == at_most(cursor as nat, line_count as nat),
        window.1 == at_most(window.0 as nat + height as nat, line_count as nat),
        window.0 <= window.1 <= line_count,
{
    let start = if cursor <= line_count {
        cursor
    } else {
        line_count
    };
    let stop = if height <= line_count - start {
        start + height
    } else {
        line_count
    };
    (start, stop)
}

/// One piece of the help line: a label, or the keys it stands for, which
/// are drawn bold.
#[derive(Debug)]
pub struct HelpItem {
    pub text: String,
    pub bold: bool,
}

/// A `HelpItem` as mathematical values.
pub struct HelpItemView {
    pub text: Seq<char>,
    pub bold: bool,
}

impl View for HelpItem {
    type V = HelpItemView;

    open spec fn view(&self) -> HelpItemView {
        HelpItemView { text: self.text@, bold: self.bold }
    }
}

impl DeepView for HelpItem {
    type V = HelpItemView;

    open spec fn deep_view(&self) -> HelpItemView {
        self@
    }
}

/// A label of the help line.
pub open spec fn label(text: Seq<char>) -> HelpItemView {
    HelpItemView { text, bold: false }
}

/// The keys that the label before them stands for.
pub open spec fn keys(text: Seq<char>) -> HelpItemView {
    HelpItemView { text, bold: true }
}

/// The help line of each mode: what the keys that the mode gives a meaning
/// do.
pub open spec fn help_table(mode: InputMode) -> Seq<HelpItemView> {
    match mode {
        InputMode::TestScrolling => seq![
            label("EXIT "@),
            keys("q "@),
            label("| FILTER "@),
            keys("f "@),
            label("| RUN TEST "@),
            keys("Enter "@),
            label("| RUN TEST IN SHELL "@),
            keys("r "@),
            label("| NAVIGATE "@),
            keys("hjkl/arrows PgUp/PgDown/Home/End "@),
            label("| ACTIVATE OUTPUT "@),
            keys("2 "@),
            label("| OPEN FILE "@),
            keys("o"@),
        ],
        InputMode::OutputScrolling => seq![
            label("NAVIGATE "@),
            keys("arrows PgUp/PgDown/Home/End "@),
            label("| ACTIVATE TESTS LIST "@),
            keys("1 "@),
        ],
        InputMode::FilterEditing => seq![label("STOP EDITING "@), keys("Esc/Enter "@)],
        InputMode::ErrorMessage => seq![label("CLOSE ERROR MESSAGE "@), keys("Esc/Enter/q "@)],
    }
}

fn plain(text: &str) -> (item: HelpItem)
    ensures
        item@ == label(text@),
{
    HelpItem { text: text.to_owned(), bold: false }
}

fn bold(text: &str) -> (item: HelpItem)
    ensures
        item@ == keys(text@),
{
    HelpItem { text: text.to_owned(), bold: true }
}

/// The help line of `mode`.
pub fn help_items(mode: InputMode) -> (items: Vec<HelpItem>)
    ensures
        items.deep_view() == help_table(mode),
{
    let items = match mode {
        InputMode::TestScrolling => vec![
            plain("EXIT "),
            bold("q "),
            plain("| FILTER "),
            bold("f "),
            plain("| RUN TEST "),
            bold("Enter "),
            plain("| RUN TEST IN SHELL "),
            bold("r "),
            plain("| NAVIGATE "),
            bold("hjkl/arrows PgUp/PgDown/Home/End "),
            plain("| ACTIVATE OUTPUT "),
            bold("2 "),
            plain("| OPEN FILE "),
            bold("o"),
        ],
        InputMode::OutputScrolling => vec![
            plain("NAVIGATE "),
            bold("arrows PgUp/PgDown/Home/End "),
            plain("| ACTIVATE TESTS LIST "),
            bold("1 "),
        ],
        InputMode::FilterEditing => vec![plain("STOP EDITING "), bold("Esc/Enter ")],
        InputMode::ErrorMessage => vec![plain("CLOSE ERROR MESSAGE "), bold("Esc/Enter/q ")],
    };
    assert(items.deep_view() =~= help_table(mode));
    items
}

} // verus!
