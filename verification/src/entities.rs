//! The test entities that discovery produces.

use crate::text::{decimal, push_decimal};
use vstd::prelude::*;
use vstd::string::*;

verus! {

/// The two colons that join the parts of a full path.
pub open spec fn path_separator() -> Seq<char> {
    seq![':', ':']
}

/// The full path of an entity called `name` in the file `filepath`.
pub open spec fn full_path_of(filepath: Seq<char>, name: Seq<char>) -> Seq<char> {
    filepath + path_separator() + name
}

/// One discovered test entity: a test function, a test method, or a class
/// that groups test methods.
#[derive(Debug)]
pub struct ParsedTest {
    /// The entity's name; a method's name is qualified by its class.
    pub test_name: String,
    /// The line of the source file on which the entity starts, counted from 1.
    pub row_location: usize,
    /// The file's path and the entity's name, joined by two colons.
    pub full_path: String,
}

/// What a `ParsedTest` holds, as mathematical values.
pub struct ParsedTestView {
    pub test_name: Seq<char>,
    pub row_location: nat,
    pub full_path: Seq<char>,
}

impl View for ParsedTest {
    type V = ParsedTestView;

    open spec fn view(&self) -> ParsedTestView {
        ParsedTestView {
            test_name: self.test_name@,
            row_location: self.row_location as nat,
            full_path: self.full_path@,
        }
    }
}

impl DeepView for ParsedTest {
    type V = ParsedTestView;

    open spec fn deep_view(&self) -> ParsedTestView {
        self@
    }
}

impl Clone for ParsedTest {
    fn clone(&self) -> (r: Self)
        ensures
            r == *self,
    {
        ParsedTest {
            test_name: self.test_name.clone(),
            row_location: self.row_location,
            full_path: self.full_path.clone(),
        }
    }
}

impl ParsedTest {
    /// The entity called `name` that starts on line `row` of the file
    /// `filepath`.
    pub fn new(name: String, row: usize, filepath: &str) -> (t: ParsedTest)
        ensures
            t@ == (ParsedTestView {
                test_name: name@,
                row_location: row as nat,
                full_path: full_path_of(filepath@, name@),
            }),
    {
        let mut full_path = filepath.to_owned();
        proof {
            reveal_strlit("::");
            assert("::"@ == path_separator());
        }
        full_path.append("::");
        full_path.append(name.as_str());
        ParsedTest { test_name: name, row_location: row, full_path }
    }
}

/// The line that closes a listing of `count` entities.
pub open spec fn summary_line(count: nat) -> Seq<char> {
    "collected "@ + decimal(count) + " tests"@
}

/// The listing of the entities: the full path of each, in the order of
/// discovery, and the summary line after them.
pub open spec fn listing(tests: Seq<ParsedTestView>) -> Seq<Seq<char>> {
    tests.map_values(|t: ParsedTestView| t.full_path).push(summary_line(tests.len()))
}

/// The lines that are printed where the entities are only collected: one
/// full path to a line, then how many there are.
pub fn collect_only_lines(tests: &Vec<ParsedTest>) -> (lines: Vec<String>)
    ensures
        lines.deep_view() == listing(tests.deep_view()),
{
    let ghost paths = tests.deep_view().map_values(|t: ParsedTestView| t.full_path);
    let mut lines: Vec<String> = Vec::new();
    let mut i: usize = 0;
    assert(lines.deep_view() == paths.take(0));
    while i < tests.len()
        invariant
            i <= tests.len(),
            paths == tests.deep_view().map_values(|t: ParsedTestView| t.full_path),
            lines.deep_view() == paths.take(i as int),
        decreases tests.len() - i,
    {
        let ghost before = lines.deep_view();
        let line = tests[i].full_path.clone();
        lines.push(line);
        proof {
            assert(lines.deep_view() == before.push(line@));
            assert(paths.take(i + 1) == paths.take(i as int).push(paths[i as int]));
        }
        i += 1;
    }
    let mut summary = "collected ".to_owned();
    push_decimal(&mut summary, tests.len());
    summary.append(" tests");
    let ghost before = lines.deep_view();
    lines.push(summary);
    proof {
        assert(lines.deep_view() == before.push(summary@));
        assert(paths.take(i as int) == paths);
    }
    lines
}

} // verus!
