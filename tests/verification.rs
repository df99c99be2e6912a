use mockcheck::imports::imports_from_text;
use mockcheck::mock::Mock;
use mockcheck::module::Module;
use mockcheck::verdict::{check_test_for_jest_mocks, missing_mocks, Verdict};

fn missing_names(modules: &Vec<Module>, test_file: &str) -> Vec<String> {
    missing_mocks(modules, test_file)
        .iter()
        .map(|m| m.name().to_string())
        .collect()
}

#[test]
fn scenario_one_missing_mock() {
    let module_text = "import { x } from \"./bar\";\nimport { y } from \"./baz\";\n";
    let test_text = "jest.mock(\"./bar\")\n";
    let imports = imports_from_text(module_text);
    match check_test_for_jest_mocks(&imports, test_text) {
        Verdict::Missing(missing) => {
            assert_eq!(missing.len(), 1);
            assert_eq!(missing[0].name(), "./baz");
            assert_eq!(missing[0].mock(), "jest.mock(\"./baz\")");
        }
        _ => panic!("expected missing mocks"),
    }
}

#[test]
fn scenario_no_imports() {
    let imports = imports_from_text("export const a = 1;\n");
    assert!(imports.is_empty());
    assert!(matches!(
        check_test_for_jest_mocks(&imports, "jest.mock(\"./x\")"),
        Verdict::NoImports
    ));
}

#[test]
fn empty_import_list_is_neither_success_nor_failure() {
    let imports: Vec<Module> = Vec::new();
    assert!(matches!(check_test_for_jest_mocks(&imports, ""), Verdict::NoImports));
    assert!(missing_mocks(&imports, "").is_empty());
}

#[test]
fn all_imports_mocked() {
    let imports = vec![Module::new("./a"), Module::new("./b")];
    let test_text = "jest.mock(\"./b\", () => ({}));\njest.mock(\"./a\");\n";
    assert!(matches!(
        check_test_for_jest_mocks(&imports, test_text),
        Verdict::AllMocked
    ));
}

#[test]
fn mock_match_is_exact_and_case_sensitive() {
    let m = Module::new("./Bar");
    assert!(!m.mock_with_in("jest.mock(\"./bar\")"));
    assert!(!m.mock_with_in("jest.mock('./Bar')"));
    assert!(!m.mock_with_in("jest.mock(\"./Bar/x\")"));
    assert!(m.mock_with_in("jest.mock(\"./Bar\", factory)"));
}

#[test]
fn adding_declaration_removes_only_that_module() {
    let imports = vec![Module::new("./a"), Module::new("./b"), Module::new("./c")];
    let before = "jest.mock(\"./a\");";
    assert_eq!(missing_names(&imports, before), vec!["./b", "./c"]);
    let after = format!("{}\n{}", before, imports[1].mock());
    assert_eq!(missing_names(&imports, &after), vec!["./c"]);
}

#[test]
fn missing_order_follows_imports() {
    let imports = vec![Module::new("./z"), Module::new("./m"), Module::new("./a")];
    assert_eq!(missing_names(&imports, "jest.mock(\"./m\")"), vec!["./z", "./a"]);
}

#[test]
fn mock_declaration_text() {
    let mock = Mock::new("./service");
    assert_eq!(mock.declaration(), "jest.mock(\"./service\")");
    assert!(mock.with_in("beforeEach(); jest.mock(\"./service\", () => 1);"));
    assert!(!mock.with_in("jest.mock(\"./services\")"));
}

#[test]
fn module_keeps_its_name() {
    let m = Module::new("../lib/util");
    assert_eq!(m.name(), "../lib/util");
    assert_eq!(m.duplicate().name(), "../lib/util");
    assert_eq!(m.mock(), "jest.mock(\"../lib/util\")");
}
