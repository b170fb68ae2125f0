use pytexp::collect_test::{
    collect, read_collected_line, Counter, PytestElement, PytestElementType, PytestTree,
};

const REPORT: &str = "============================= test session starts ==============================
platform linux -- Python 3.10.6, pytest-7.2.0, pluggy-1.0.0
rootdir: /home/user/aiohttp, configfile: setup.cfg
collected 6 items

<Module tests/test_base_protocol.py>
  <Function test_loop>
  <Function test_pause_writing>
  <Function test_pause_reading_stub_transport>
<Module tests/test_client.py>
  <Class TestClient>
    <Function test_get>
    <Function test_post[param-1]>
  <Function test_after_class>

========================== 6 tests collected in 0.05s ==========================
";

fn count(tree: &PytestTree, kind: PytestElementType) -> usize {
    tree.elements.iter().filter(|e| e.element_type == kind).count()
}

fn element(id: usize, name: &str, parent_id: usize, element_type: PytestElementType) -> PytestElement {
    PytestElement { id, name: name.to_string(), parent_id, element_type }
}

#[test]
fn collects_modules_classes_and_functions() {
    let tree = collect(REPORT.to_string()).unwrap();
    assert_eq!(tree.id, 0);
    assert_eq!(count(&tree, PytestElementType::Module), 2);
    assert_eq!(count(&tree, PytestElementType::Class), 1);
    assert_eq!(count(&tree, PytestElementType::Function), 6);
    let got: Vec<(usize, &str, usize)> =
        tree.elements.iter().map(|e| (e.id, e.name.as_str(), e.parent_id)).collect();
    assert_eq!(
        got,
        vec![
            (1, "tests/test_base_protocol.py", 0),
            (2, "test_loop", 1),
            (3, "test_pause_writing", 1),
            (4, "test_pause_reading_stub_transport", 1),
            (5, "tests/test_client.py", 0),
            (6, "TestClient", 5),
            (7, "test_get", 6),
            (8, "test_post[param-1]", 6),
            (9, "test_after_class", 6),
        ]
    );
}

#[test]
fn element_is_found_in_its_full_name() {
    let tree = collect(REPORT.to_string()).unwrap();
    let target_test = tree.elements.get(3).unwrap();
    assert_eq!(&target_test.name, "test_pause_reading_stub_transport");
    assert_eq!(target_test.id, 4);
    assert_eq!(target_test.parent_id, 1);
    assert_eq!(tree.is_test_contains_value(target_test.clone(), "stub"), true);
    assert_eq!(tree.is_test_contains_value(target_test.clone(), "base_protocol"), true);
    assert_eq!(tree.is_test_contains_value(target_test.clone(), ".py"), true);
    assert_eq!(tree.is_test_contains_value(target_test.clone(), "Function"), false);
    assert_eq!(tree.is_test_contains_value(target_test.clone(), ".rs"), false);
    assert!(tree.is_test_contains_value(target_test.clone(), ".py::test_pause"));
    assert!(tree.is_test_contains_value(target_test.clone(), ""));
}

#[test]
fn method_is_found_in_its_class_and_its_module() {
    let tree = collect(REPORT.to_string()).unwrap();
    let method = tree.elements.get(6).unwrap();
    assert_eq!(&method.name, "test_get");
    assert!(tree.is_test_contains_value(method.clone(), "test_client"));
    assert!(tree.is_test_contains_value(method.clone(), "get"));
    assert!(tree.is_test_contains_value(method.clone(), "TestClient"));
    assert!(tree.is_test_contains_value(method.clone(), "py::TestClient::test"));
    assert!(tree.is_test_contains_value(method.clone(), "tests/test_client.py::TestClient::test_get"));
    assert!(!tree.is_test_contains_value(method.clone(), "test_post"));
    assert!(!tree.is_test_contains_value(method.clone(), "testclient"));
    let class = tree.elements.get(5).unwrap();
    assert!(tree.is_test_contains_value(class.clone(), "client.py::Test"));
    assert!(!tree.is_test_contains_value(class.clone(), "test_get"));
    let module = tree.elements.get(4).unwrap();
    assert!(tree.is_test_contains_value(module.clone(), "client"));
    assert!(!tree.is_test_contains_value(module.clone(), "get"));
    assert!(!tree.is_test_contains_value(module.clone(), "::"));
}

#[test]
fn value_is_searched_in_the_full_name() {
    let tree = collect("<Module a.py>\n  <Class TestA>\n    <Function test_x>".to_string()).unwrap();
    let test = tree.elements[2].clone();
    assert_eq!(tree.full_test_name(test.clone()), "a.py::TestA::test_x");
    assert!(tree.is_test_contains_value(test.clone(), "TestA"));
    for value in ["", "a", "a.py", "::", "TestA::test", "x", "a.py::TestA::test_x", "b", "testa", "a.py::test_x", "a.py::TestA::test_x "] {
        assert_eq!(
            tree.is_test_contains_value(test.clone(), value),
            tree.full_test_name(test.clone()).contains(value),
            "{:?}",
            value
        );
    }
}

#[test]
fn full_names_run_from_the_module_down() {
    let tree = collect(REPORT.to_string()).unwrap();
    let names: Vec<String> =
        tree.elements.iter().map(|e| tree.full_test_name(e.clone())).collect();
    assert_eq!(
        names,
        vec![
            "tests/test_base_protocol.py",
            "tests/test_base_protocol.py::test_loop",
            "tests/test_base_protocol.py::test_pause_writing",
            "tests/test_base_protocol.py::test_pause_reading_stub_transport",
            "tests/test_client.py",
            "tests/test_client.py::TestClient",
            "tests/test_client.py::TestClient::test_get",
            "tests/test_client.py::TestClient::test_post[param-1]",
            "tests/test_client.py::TestClient::test_after_class",
        ]
    );
}

#[test]
fn full_name_does_not_depend_on_storage_order() {
    let tree = collect(REPORT.to_string()).unwrap();
    let mut reversed = tree.elements.clone();
    reversed.reverse();
    let shuffled = PytestTree::new(0, reversed);
    for e in tree.elements.iter() {
        assert_eq!(tree.full_test_name(e.clone()), shuffled.full_test_name(e.clone()));
    }
}

#[test]
fn collecting_twice_gives_the_same_tree() {
    let a = collect(REPORT.to_string()).unwrap();
    let b = collect(REPORT.to_string()).unwrap();
    let names_a: Vec<String> = a.elements.iter().map(|e| a.full_test_name(e.clone())).collect();
    let names_b: Vec<String> = b.elements.iter().map(|e| b.full_test_name(e.clone())).collect();
    assert_eq!(names_a, names_b);
}

#[test]
fn class_or_function_before_any_module_is_an_error() {
    assert!(collect("<Function test_alone>\n<Module m.py>".to_string()).is_err());
    assert!(collect("<Class TestAlone>\n<Module m.py>".to_string()).is_err());
    assert!(collect("noise\n  <Function test_alone>".to_string()).is_err());
}

#[test]
fn report_without_entities_is_an_empty_tree() {
    let tree = collect("".to_string()).unwrap();
    assert_eq!(tree.id, 0);
    assert!(tree.elements.is_empty());
    let tree = collect("no tests ran in 0.01s\n\n".to_string()).unwrap();
    assert!(tree.elements.is_empty());
}

#[test]
fn new_module_closes_the_class_before_it() {
    let tree = collect("<Module a.py>\n<Class TestA>\n<Module b.py>\n<Function test_b>".to_string()).unwrap();
    let last = tree.elements.last().unwrap();
    assert_eq!(last.id, 4);
    assert_eq!(last.parent_id, 3);
    assert_eq!(tree.full_test_name(last.clone()), "b.py::test_b");
}

fn line(text: &str) -> Option<(PytestElementType, String)> {
    read_collected_line(text)
}

#[test]
fn lines_that_name_an_entity() {
    assert_eq!(line("<Module a.py>"), Some((PytestElementType::Module, "a.py".to_string())));
    assert_eq!(line("<Class TestA>"), Some((PytestElementType::Class, "TestA".to_string())));
    assert_eq!(line("  <Function test_a>"), Some((PytestElementType::Function, "test_a".to_string())));
    assert_eq!(line("\t \u{a0}<Function test_a>"), Some((PytestElementType::Function, "test_a".to_string())));
    assert_eq!(line("<Function\ttest_a>"), Some((PytestElementType::Function, "test_a".to_string())));
    assert_eq!(line("<Function\u{3000}test_a>"), Some((PytestElementType::Function, "test_a".to_string())));
    assert_eq!(line("<Function \u{2003}test_a>"), Some((PytestElementType::Function, "\u{2003}test_a".to_string())));
    assert_eq!(line("<Function >"), Some((PytestElementType::Function, "".to_string())));
    assert_eq!(line("<Function a> b>"), Some((PytestElementType::Function, "a> b".to_string())));
    assert_eq!(line("<Function test[<Module x>]>"), Some((PytestElementType::Function, "test[<Module x>]".to_string())));
    assert_eq!(line("<Function a\rb>"), Some((PytestElementType::Function, "a\rb".to_string())));
    assert_eq!(line("\n<Function a>"), Some((PytestElementType::Function, "a".to_string())));
    assert_eq!(line("<Function\na>"), Some((PytestElementType::Function, "a".to_string())));
    assert_eq!(line("<Module  two>"), Some((PytestElementType::Module, " two".to_string())));
}

#[test]
fn lines_that_name_nothing() {
    for text in [
        "",
        "<",
        "<>",
        "<Function>",
        "<Functiontest_a>",
        "<Function test_a",
        "<Function test_a> ",
        "<Function test_a>\r",
        "<Function test_a>\n",
        "<Function a\nb>",
        "x<Function test_a>",
        "< Function test_a>",
        "<function test_a>",
        "<Package tests>",
        "<Func test_a>",
        "<ClassModule x>",
        "Function test_a>",
        "collected 6 items",
        "\u{200b}<Function test_a>",
        "<Function\u{200b}test_a>",
    ] {
        assert_eq!(line(text), None, "{:?}", text);
    }
}

#[test]
fn element_is_found_by_its_identifier() {
    let tree = PytestTree::new(
        0,
        vec![
            element(7, "m.py", 0, PytestElementType::Module),
            element(3, "TestC", 7, PytestElementType::Class),
            element(5, "test_f", 3, PytestElementType::Function),
        ],
    );
    let found = tree.element_by_parent_id(3);
    assert_eq!(found.name, "TestC");
    assert_eq!(found.parent_id, 7);
    assert_eq!(found.element_type, PytestElementType::Class);
    assert_eq!(tree.full_test_name(tree.elements[2].clone()), "m.py::TestC::test_f");
    assert_eq!(tree.full_test_name(tree.elements[1].clone()), "m.py::TestC");
    assert_eq!(tree.full_test_name(tree.elements[0].clone()), "m.py");
}

#[test]
fn counter_counts_from_zero() {
    let mut counter = Counter::new();
    assert_eq!(counter.last_value, 0);
    assert_eq!(counter.get(), 0);
    assert_eq!(counter.get(), 1);
    assert_eq!(counter.get(), 2);
    assert_eq!(counter.last_value, 3);
}
