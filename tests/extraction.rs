use mockcheck::imports::imports_from_text;
use mockcheck::module::Module;

fn names(text: &str) -> Vec<String> {
    imports_from_text(text)
        .iter()
        .map(|m: &Module| m.name().to_string())
        .collect()
}

#[test]
fn braced_imports_in_order() {
    let text = "import { x } from \"./bar\";\nimport { y } from \"./baz\";\n";
    assert_eq!(names(text), vec!["./bar", "./baz"]);
}

#[test]
fn namespace_and_default_imports() {
    let text = "import * as fs from \"node:fs\";\nimport React from \"react\";\n";
    assert_eq!(names(text), vec!["node:fs", "react"]);
}

#[test]
fn import_spanning_lines() {
    let text = "import {\n  a,\n  b,\n} from\n  \"./multi\";\n";
    assert_eq!(names(text), vec!["./multi"]);
}

#[test]
fn no_import_statements() {
    let text = "const x = 1;\nexport default x;\n";
    assert!(names(text).is_empty());
}

#[test]
fn from_clause_without_import_is_not_matched() {
    let text = "// taken from \"./nowhere\"\nconst s = 'from \"./x\"';\n";
    assert!(names(text).is_empty());
}

#[test]
fn repeated_import_is_kept() {
    let text = "import { a } from \"./m\";\nimport { b } from \"./m\";\n";
    assert_eq!(names(text), vec!["./m", "./m"]);
}

#[test]
fn empty_braces_or_path_do_not_match() {
    let text = "import {} from \"./a\";\nimport { b } from \"\";\n";
    assert!(names(text).is_empty());
}

#[test]
fn namespace_import_needs_single_space_after_as() {
    assert!(names("import * as  x from \"./a\";").is_empty());
    assert_eq!(names("import *\tas\nx from \"./a\";"), vec!["./a"]);
}

#[test]
fn unicode_path_is_kept_whole() {
    assert_eq!(names("import { é } from \"./café\";"), vec!["./café"]);
}

#[test]
fn excluded_region_hides_its_imports() {
    let text = "import { a } from \"./a\";\n//#region not-mocked\nimport { b } from \"./b\";\n//#endregion\nimport { c } from \"./c\";\n";
    assert_eq!(names(text), vec!["./a", "./c"]);
}

#[test]
fn excluded_region_leaves_surroundings_unchanged() {
    let with_region = "import { a } from \"./a\";\n//#region not-mocked import { z } from \"./z\"; //#endregion\nimport { c } from \"./c\";\n";
    let without = "import { a } from \"./a\";\n\nimport { c } from \"./c\";\n";
    assert_eq!(names(with_region), names(without));
}

#[test]
fn region_ends_at_nearest_end_marker() {
    let text = "//#region not-mocked\nimport { a } from \"./a\";\n//#endregion\nimport { b } from \"./b\";\n//#endregion\n";
    assert_eq!(names(text), vec!["./b"]);
}

#[test]
fn unterminated_region_removes_nothing() {
    let text = "//#region not-mocked\nimport { a } from \"./a\";\n";
    assert_eq!(names(text), vec!["./a"]);
}

#[test]
fn extraction_twice_gives_same_order() {
    let text = "import { z } from \"./z\";\nimport * as y from \"./y\";\nimport x from \"./x\";\n";
    let first = names(text);
    let second = names(text);
    assert_eq!(first, second);
    assert_eq!(first, vec!["./z", "./y", "./x"]);
}

#[test]
fn unicode_identifiers_are_words() {
    assert_eq!(names("import é from \"x\";"), vec!["x"]);
    assert_eq!(names("import * as café from \"./café\";"), vec!["./café"]);
    assert_eq!(names("import x\u{0301}_٣ from \"./marks\";"), vec!["./marks"]);
    assert!(names("import € from \"./sign\";").is_empty());
}

#[test]
fn agrees_with_regular_expression() {
    let pattern =
        regex::Regex::new(r#"import\s+(\{[^}]+\}|\*\s+as\s\w+|\w+)\s+from\s+"([^"]+)""#).unwrap();
    let texts = [
        "import { a } from \"./a\";\nimport * as ß from \"./b\";\nimport Ωmega from \"./c\";",
        "import  {\n b }\tfrom\u{3000}\"./d\"; import $ from \"./e\"; import x_1 from \"./f\"",
        "reimport z from \"./g\"; import * as\u{a0}y from \"./h\"; import {} from \"./i\"",
        "import 名前 from \"./j\"; import a from \"\"; import b from \"./k\"",
    ];
    for text in texts {
        let expected: Vec<String> = pattern
            .captures_iter(text)
            .filter_map(|c| c.get(2))
            .map(|m| m.as_str().to_string())
            .collect();
        assert_eq!(names(text), expected, "text: {text}");
    }
}

#[test]
fn region_beside_a_split_marker_changes_nothing() {
    let p = "import { a } from \"./a\";\n//#region";
    let s = " not-mocked\nimport { c } from \"./c\";\n";
    let with_region = format!("{p}//#region not-mocked\nimport {{ z }} from \"./z\";\n//#endregion{s}");
    let without = format!("{p}{s}");
    assert_eq!(names(&with_region), names(&without));
    assert_eq!(names(&without), vec!["./a", "./c"]);
}
