//! Discovery of test entities in Python source: which files are looked
//! at, and which of a file's top-level statements are tests.

use crate::entities::{full_path_of, path_separator, ParsedTest, ParsedTestView};
use crate::text::{str_ends_with, str_starts_with};
use crate::parser::StatementKind::{AsyncFunctionDef, ClassDef, FunctionDef, Other};
use rustpython_parser::ast::{Ranged, Stmt, Suite};
use rustpython_parser::Parse;
use vstd::prelude::*;
use vstd::string::*;

verus! {

/// What a statement is, as far as discovery tells statements apart.
#[derive(Debug, Clone, Copy, PartialEq, Eq, Structural)]
pub enum StatementKind {
    FunctionDef,
    AsyncFunctionDef,
    ClassDef,
    /// Any statement that defines neither a function nor a class.
    Other,
}

/// The head of a statement: its kind, the name it defines (empty where it
/// defines none) and where it starts, as a count of bytes from the start of
/// the source.
#[derive(Debug)]
pub struct Definition {
    pub kind: StatementKind,
    pub name: String,
    pub offset: usize,
}

/// A `Definition` as mathematical values.
pub struct DefinitionView {
    pub kind: StatementKind,
    pub name: Seq<char>,
    pub offset: nat,
}

impl View for Definition {
    type V = DefinitionView;

    open spec fn view(&self) -> DefinitionView {
        DefinitionView { kind: self.kind, name: self.name@, offset: self.offset as nat }
    }
}

impl DeepView for Definition {
    type V = DefinitionView;

    open spec fn deep_view(&self) -> DefinitionView {
        self@
    }
}

/// A top-level statement of a module: its head and, for a class, the heads
/// of the statements directly in its body.
#[derive(Debug)]
pub struct Statement {
    pub head: Definition,
    pub body: Vec<Definition>,
}

/// A `Statement` as mathematical values.
pub struct StatementView {
    pub head: DefinitionView,
    pub body: Seq<DefinitionView>,
}

impl View for Statement {
    type V = StatementView;

    open spec fn view(&self) -> StatementView {
        StatementView { head: self.head@, body: self.body.deep_view() }
    }
}

impl DeepView for Statement {
    type V = StatementView;

    open spec fn deep_view(&self) -> StatementView {
        self@
    }
}

/// Why a source file gave no entities.
#[derive(Debug)]
pub enum ParseFailure {
    /// The source has `u32::MAX` bytes or more.
    TooLarge,
    /// The source is not valid Python; the parser's message.
    Syntax(String),
}

/// A source file's name marks it as one that holds tests: it ends in
/// `.py`, and it ends in `_test.py` or begins with `test_`.
pub open spec fn names_test_file(name: Seq<char>) -> bool {
    ".py"@.is_suffix_of(name) && ("_test.py"@.is_suffix_of(name) || "test_"@.is_prefix_of(name))
}

/// Whether a file of this name is looked at for tests.
pub fn is_test_file_name(name: &str) -> (r: bool)
    ensures
        r == names_test_file(name@),
{
    str_ends_with(name, ".py") && (str_ends_with(name, "_test.py") || str_starts_with(
        name,
        "test_",
    ))
}

/// A function, plain or asynchronous, whose name begins with `test_`.
pub open spec fn is_test_function(d: DefinitionView) -> bool {
    (d.kind == StatementKind::FunctionDef || d.kind == StatementKind::AsyncFunctionDef)
        && "test_"@.is_prefix_of(d.name)
}

/// The entity called `name` on line `row` of the file `filepath`.
pub open spec fn entity(name: Seq<char>, row: nat, filepath: Seq<char>) -> ParsedTestView {
    ParsedTestView { test_name: name, row_location: row, full_path: full_path_of(filepath, name) }
}

/// The byte at `i` ends a line: it is a line feed, or a carriage return
/// that no line feed follows.
pub open spec fn ends_line(source: Seq<u8>, i: int) -> bool {
    source[i] == 0x0a || (source[i] == 0x0d && !(i + 1 < source.len() && source[i + 1] == 0x0a))
}

/// How many lines end before the byte at `offset`.
pub open spec fn lines_before(source: Seq<u8>, offset: int) -> nat
    decreases offset,
{
    if offset <= 0 {
        0
    } else {
        lines_before(source, offset - 1) + if offset <= source.len() && ends_line(
            source,
            offset - 1,
        ) {
            1nat
        } else {
            0nat
        }
    }
}

/// The line that the byte at `offset` stands on, counted from 1.
pub open spec fn row_at(source: Seq<u8>, offset: int) -> nat {
    lines_before(source, offset) + 1
}

/// Past the end of the source no line ends.
proof fn lemma_lines_before_beyond(source: Seq<u8>, offset: int)
    requires
        offset >= source.len(),
    ensures
        lines_before(source, offset) == lines_before(source, source.len() as int),
    decreases offset,
{
    if offset > source.len() {
        lemma_lines_before_beyond(source, offset - 1);
    }
}

/// The line of `source` that the byte at `offset` stands on, counted
/// from 1.
pub fn row_of(source: &[u8], offset: usize) -> (row: usize)
    requires
        source@.len() < usize::MAX,
    ensures
        row == row_at(source@, offset as int),
{
    let end = if offset < source.len() {
        offset
    } else {
        source.len()
    };
    let mut count: usize = 0;
    let mut i: usize = 0;
    while i < end
        invariant
            i <= end <= source.len(),
            end <= offset,
            count <= i,
            count == lines_before(source@, i as int),
        decreases end - i,
    {
        let byte = source[i];
        if byte == 0x0a || (byte == 0x0d && !(i + 1 < source.len() && source[i + 1] == 0x0a)) {
            count += 1;
        }
        i += 1;
    }
    proof {
        if offset > source.len() {
            lemma_lines_before_beyond(source@, offset as int);
        }
    }
    count + 1
}

/// The entity for a method of the class `class_name`: its name is the
/// class's name, two colons and the method's name.
pub open spec fn method_entity(
    class_name: Seq<char>,
    filepath: Seq<char>,
    source: Seq<u8>,
) -> spec_fn(DefinitionView) -> ParsedTestView {
    |d: DefinitionView|
        entity(class_name + path_separator() + d.name, row_at(source, d.offset as int), filepath)
}

/// The entities for the test methods among the statements of a class body,
/// in the order of the body.
pub open spec fn method_entities(
    class_name: Seq<char>,
    body: Seq<DefinitionView>,
    filepath: Seq<char>,
    source: Seq<u8>,
) -> Seq<ParsedTestView> {
    body.filter(|d: DefinitionView| is_test_function(d)).map_values(
        method_entity(class_name, filepath, source),
    )
}

/// What a class called `class_name` on line `class_row` adds: nothing where
/// its name does not begin with `Test` or where it has no test method, else
/// the class itself followed by its test methods.
pub open spec fn class_entities(
    class_name: Seq<char>,
    class_row: nat,
    body: Seq<DefinitionView>,
    filepath: Seq<char>,
    source: Seq<u8>,
) -> Seq<ParsedTestView> {
    let methods = method_entities(class_name, body, filepath, source);
    if "Test"@.is_prefix_of(class_name) && methods.len() > 0 {
        seq![entity(class_name, class_row, filepath)] + methods
    } else {
        Seq::empty()
    }
}

/// What one top-level statement adds: a test function itself, a class what
/// `class_entities` says, anything else nothing.
pub open spec fn statement_entities(
    s: StatementView,
    filepath: Seq<char>,
    source: Seq<u8>,
) -> Seq<ParsedTestView> {
    if is_test_function(s.head) {
        seq![entity(s.head.name, row_at(source, s.head.offset as int), filepath)]
    } else if s.head.kind == StatementKind::ClassDef {
        class_entities(
            s.head.name,
            row_at(source, s.head.offset as int),
            s.body,
            filepath,
            source,
        )
    } else {
        Seq::empty()
    }
}

/// The entities of a module, in the order of its statements.
pub open spec fn module_entities(
    statements: Seq<StatementView>,
    filepath: Seq<char>,
    source: Seq<u8>,
) -> Seq<ParsedTestView>
    decreases statements.len(),
{
    if statements.len() == 0 {
        Seq::empty()
    } else {
        module_entities(statements.drop_last(), filepath, source) + statement_entities(
            statements.last(),
            filepath,
            source,
        )
    }
}

/// A class none of whose methods is a test adds nothing: neither a method
/// nor the class itself.
pub proof fn lemma_class_without_tests_adds_nothing(
    class_name: Seq<char>,
    class_row: nat,
    body: Seq<DefinitionView>,
    filepath: Seq<char>,
    source: Seq<u8>,
)
    requires
        forall|i: int| 0 <= i < body.len() ==> !is_test_function(#[trigger] body[i]),
    ensures
        class_entities(class_name, class_row, body, filepath, source) == Seq::<
            ParsedTestView,
        >::empty(),
{
    let pred = |d: DefinitionView| is_test_function(d);
    let kept = body.filter(pred);
    if kept.len() > 0 {
        body.lemma_filter_pred(pred, 0);
        assert(kept.contains(kept[0]));
        body.lemma_filter_contains_rev(pred, kept[0]);
        let k = choose|k: int| 0 <= k < body.len() && body[k] == kept[0];
        assert(is_test_function(body[k]));
    }
}

/// A class whose name does not begin with `Test` adds nothing, whatever
/// its methods are called.
pub proof fn lemma_other_class_adds_nothing(
    class_name: Seq<char>,
    class_row: nat,
    body: Seq<DefinitionView>,
    filepath: Seq<char>,
    source: Seq<u8>,
)
    requires
        !"Test"@.is_prefix_of(class_name),
    ensures
        class_entities(class_name, class_row, body, filepath, source) == Seq::<
            ParsedTestView,
        >::empty(),
{
}

/// Adds to `input` what the class called `class_name`, which starts on
/// line `class_row` of `source` and has the statements `body`, contributes.
pub fn add_class(
    class_name: String,
    body: &Vec<Definition>,
    input: &mut Vec<ParsedTest>,
    filepath: &str,
    class_row: usize,
    source: &[u8],
)
    requires
        source@.len() < usize::MAX,
    ensures
        final(input).deep_view() == old(input).deep_view() + class_entities(
            class_name@,
            class_row as nat,
            body.deep_view(),
            filepath@,
            source@,
        ),
{
    let ghost before = input.deep_view();
    if !str_starts_with(class_name.as_str(), "Test") {
        assert(before + Seq::<ParsedTestView>::empty() == before);
        return ;
    }
    let ghost pred = |d: DefinitionView| is_test_function(d);
    let ghost all = body.deep_view();
    let mut tests_in_class: Vec<ParsedTest> = Vec::new();
    let mut i: usize = 0;
    proof {
        reveal(Seq::filter);
        assert(all.take(0).len() == 0);
        assert(tests_in_class.deep_view() == method_entities(
            class_name@,
            all.take(0),
            filepath@,
            source@,
        ));
    }
    while i < body.len()
        invariant
            i <= body.len(),
            source@.len() < usize::MAX,
            all == body.deep_view(),
            pred == |d: DefinitionView| is_test_function(d),
            tests_in_class.deep_view() == method_entities(
                class_name@,
                all.take(i as int),
                filepath@,
                source@,
            ),
        decreases body.len() - i,
    {
        let m = &body[i];
        let is_function = match m.kind {
            StatementKind::FunctionDef | StatementKind::AsyncFunctionDef => true,
            _ => false,
        };
        proof {
            assert(all.take(i + 1) == all.take(i as int).push(all[i as int]));
            all.take(i as int).lemma_filter_push(all[i as int], pred);
            assert(all[i as int] == m@);
        }
        if is_function && str_starts_with(m.name.as_str(), "test_") {
            proof {
                reveal_strlit("::");
                assert("::"@ == path_separator());
            }
            let mut name = class_name.clone();
            name.append("::");
            name.append(m.name.as_str());
            let test = ParsedTest::new(name, row_of(source, m.offset), filepath);
            let ghost listed = tests_in_class.deep_view();
            tests_in_class.push(test);
            proof {
                assert(tests_in_class.deep_view() == listed.push(test@));
                let kept = all.take(i as int).filter(pred);
                let f = method_entity(class_name@, filepath@, source@);
                assert(kept.push(m@).map_values(f) == kept.map_values(f).push(test@));
            }
        }
        i += 1;
    }
    assert(all.take(i as int) == all);
    if tests_in_class.len() > 0 {
        let class = ParsedTest::new(class_name, class_row, filepath);
        let ghost methods = tests_in_class.deep_view();
        input.push(class);
        assert(input.deep_view() == before.push(class@));
        append_tests(input, tests_in_class);
        assert(before.push(class@) + methods == before + (seq![class@] + methods));
    } else {
        assert(before + Seq::<ParsedTestView>::empty() == before);
    }
}

/// Moves the entities of `more` to the end of `input`.
fn append_tests(input: &mut Vec<ParsedTest>, more: Vec<ParsedTest>)
    ensures
        final(input).deep_view() == old(input).deep_view() + more.deep_view(),
{
    let ghost before = input.deep_view();
    let mut i: usize = 0;
    assert(before + more.deep_view().take(0) == before);
    while i < more.len()
        invariant
            i <= more.len(),
            input.deep_view() == before + more.deep_view().take(i as int),
        decreases more.len() - i,
    {
        let ghost listed = input.deep_view();
        let test = more[i].clone();
        input.push(test);
        proof {
            assert(input.deep_view() == listed.push(test@));
            assert(more.deep_view().take(i + 1) == more.deep_view().take(i as int).push(test@));
            assert(listed.push(test@) == before + more.deep_view().take(i + 1));
        }
        i += 1;
    }
    assert(more.deep_view().take(i as int) == more.deep_view());
}

/// The entities among the top-level statements of a module whose text is
/// `source` and which stands in the file `filepath`, in the order of the
/// statements.
pub fn tests_in_module(statements: &Vec<Statement>, source: &[u8], filepath: &str) -> (tests: Vec<
    ParsedTest,
>)
    requires
        source@.len() < usize::MAX,
    ensures
        tests.deep_view() == module_entities(statements.deep_view(), filepath@, source@),
{
    let ghost all = statements.deep_view();
    let mut tests: Vec<ParsedTest> = Vec::new();
    let mut i: usize = 0;
    proof {
        assert(all.take(0).len() == 0);
        assert(tests.deep_view() == module_entities(all.take(0), filepath@, source@));
    }
    while i < statements.len()
        invariant
            i <= statements.len(),
            source@.len() < usize::MAX,
            all == statements.deep_view(),
            tests.deep_view() == module_entities(all.take(i as int), filepath@, source@),
        decreases statements.len() - i,
    {
        let s = &statements[i];
        let ghost before = tests.deep_view();
        proof {
            assert(all.take(i + 1).drop_last() == all.take(i as int));
            assert(all.take(i + 1).last() == s@);
        }
        match s.head.kind {
            StatementKind::FunctionDef | StatementKind::AsyncFunctionDef => {
                if str_starts_with(s.head.name.as_str(), "test_") {
                    let row = row_of(source, s.head.offset);
                    let test = ParsedTest::new(s.head.name.clone(), row, filepath);
                    tests.push(test);
                    assert(tests.deep_view() == before + seq![test@]);
                } else {
                    assert(before + Seq::<ParsedTestView>::empty() == before);
                }
            },
            StatementKind::ClassDef => {
                let row = row_of(source, s.head.offset);
                add_class(s.head.name.clone(), &s.body, &mut tests, filepath, row, source);
            },
            StatementKind::Other => {
                assert(before + Seq::<ParsedTestView>::empty() == before);
            },
        }
        i += 1;
    }
    assert(all.take(i as int) == all);
    tests
}

/// What the parser makes of a source text: the heads of the top-level
/// statements in their order, each class with the heads of the statements
/// directly in its body, or the parser's message where the text is not
/// valid Python.
pub uninterp spec fn python_outline(source: Seq<char>, source_path: Seq<char>) -> Result<
    Seq<StatementView>,
    Seq<char>,
>;

/// The outcome of parsing as mathematical values.
pub open spec fn outline_view(r: Result<Vec<Statement>, String>) -> Result<
    Seq<StatementView>,
    Seq<char>,
> {
    match r {
        Ok(statements) => Ok(statements.deep_view()),
        Err(message) => Err(message@),
    }
}

/// `Suite::parse` of `rustpython_parser`, with each statement brought to
/// its head: the kind by the variant, the name that a function or a class
/// defines, and the start of the statement's range. An error is brought to
/// its message. The parser counts bytes in 32 bits.
#[verifier::external_body]
fn parse_python(source: &str, source_path: &str) -> (r: Result<Vec<Statement>, String>)
    requires
        source.spec_bytes().len() <= u32::MAX,
    ensures
        outline_view(r) == python_outline(source@, source_path@),
{
    let head = |s: &Stmt| {
        let (kind, name) = match s {
            Stmt::FunctionDef(d) => (FunctionDef, d.name.to_string()),
            Stmt::AsyncFunctionDef(d) => (AsyncFunctionDef, d.name.to_string()),
            Stmt::ClassDef(d) => (ClassDef, d.name.to_string()),
            _ => (Other, String::new()),
        };
        Definition { kind, name, offset: s.start().to_usize() }
    };
    Ok(Suite::parse(source, source_path).map_err(|e| e.to_string())?.iter().map(|s| Statement {
        body: match s { Stmt::ClassDef(d) => d.body.iter().map(head).collect(), _ => Vec::new() },
        head: head(s),
    }).collect())
}

/// The name under which a source text is handed to the parser.
pub open spec fn embedded() -> Seq<char> {
    "<embedded>"@
}

/// What the source text `contents` of the file `filepath` holds: the
/// entities among its top-level statements, or why there are none to give.
pub open spec fn source_entities(contents: &str, filepath: Seq<char>) -> Result<
    Seq<ParsedTestView>,
    Option<Seq<char>>,
> {
    if contents.spec_bytes().len() >= u32::MAX {
        Err(None)
    } else {
        match python_outline(contents@, embedded()) {
            Ok(statements) => Ok(module_entities(statements, filepath, contents.spec_bytes())),
            Err(message) => Err(Some(message)),
        }
    }
}

/// The outcome of `parse_file` as mathematical values.
pub open spec fn parsed_view(r: Result<Vec<ParsedTest>, ParseFailure>) -> Result<
    Seq<ParsedTestView>,
    Option<Seq<char>>,
> {
    match r {
        Ok(tests) => Ok(tests.deep_view()),
        Err(ParseFailure::TooLarge) => Err(None),
        Err(ParseFailure::Syntax(message)) => Err(Some(message@)),
    }
}

/// Discovers the test entities in the source text `contents` of the file
/// `filepath`.
pub fn parse_file(contents: &str, filepath: &str) -> (r: Result<Vec<ParsedTest>, ParseFailure>)
    ensures
        parsed_view(r) == source_entities(contents, filepath@),
{
    let source = contents.as_bytes();
    if source.len() >= 0xffff_ffff {
        return Err(ParseFailure::TooLarge);
    }
    match parse_python(contents, "<embedded>") {
        Ok(statements) => Ok(tests_in_module(&statements, source, filepath)),
        Err(message) => Err(ParseFailure::Syntax(message)),
    }
}

/// Takes in one source file of a scan: its entities are added to `tests`
/// where the source can be parsed; where it cannot, `tests` stays as it is
/// and the failure is handed back, so that the scan can report it and go
/// on with the next file.
pub fn add_source(tests: &mut Vec<ParsedTest>, contents: &str, filepath: &str) -> (r: Result<
    (),
    ParseFailure,
>)
    ensures
        r is Ok == source_entities(contents, filepath@) is Ok,
        r is Ok ==> final(tests).deep_view() == old(tests).deep_view() + source_entities(
            contents,
            filepath@,
        )->Ok_0,
        r matches Err(failure) ==> final(tests).deep_view() == old(tests).deep_view()
            && source_entities(contents, filepath@) == parsed_view(Err(failure)),
{
    match parse_file(contents, filepath) {
        Ok(found) => {
            append_tests(tests, found);
            Ok(())
        },
        Err(failure) => Err(failure),
    }
}

} // verus!
