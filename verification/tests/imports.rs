use code_assistant::imports::{extract_imports, rust_imports};
use code_assistant::javascript::{javascript_imports, javascript_line, JavascriptLineMatches, JavascriptScan};
use code_assistant::python::{python_imports, python_line, PythonLineMatches, PythonScan};

fn strs(v: &[&str]) -> Vec<String> {
    v.iter().map(|s| s.to_string()).collect()
}

#[test]
fn rust_use_lines_are_collected_and_removed() {
    let src = "use std::fmt;\npub use crate::a::{B, C as D};\nfn main() {}\n";
    let (imports, cleaned) = rust_imports(src);
    assert_eq!(imports, strs(&["std::fmt", "crate::a::B", "crate::a::C"]));
    assert_eq!(cleaned, "fn main() {}\n");
}

#[test]
fn python_plain_and_from_imports() {
    let src = "import os, sys as system\nfrom a.b import c, d as e\nx = 1\n# note\n";
    let (imports, cleaned) = python_imports(src);
    assert_eq!(imports, strs(&["os", "sys", "a.b.c", "a.b.d"]));
    assert_eq!(cleaned, "x = 1\n# note\n");
}

#[test]
fn python_continued_import_statement() {
    let src = "import a, \\\n    b\ny = 2";
    let (imports, cleaned) = python_imports(src);
    // The first line gives `a` and the backslash entry; the completed
    // statement then gives its entries again.
    assert_eq!(imports, strs(&["a", "\\", "a", "b"]));
    assert_eq!(cleaned, "y = 2\n");
}

#[test]
fn python_line_with_given_matches() {
    let mut scan = PythonScan::new();
    let line: Vec<char> = "from m import x as y, z".chars().collect();
    let m = PythonLineMatches {
        import_groups: None,
        from_groups: Some((Some("m".to_string()), Some("x as y, z".to_string()))),
        continued: false,
        buffered_from_groups: None,
    };
    python_line(&mut scan, &line, &m);
    assert_eq!(scan.imports, strs(&["m.x", "m.z"]));
    assert!(scan.cleaned.is_empty());
    assert!(!scan.in_multiline_import);
}

#[test]
fn javascript_imports_of_each_kind() {
    let src = "// header\nimport React from 'react';\nimport { a, b as c } from \"./m\";\nconst x = 1;\n";
    let (imports, cleaned) = javascript_imports(src);
    assert_eq!(imports, strs(&["default:React from react", "a:a from ./m", "b:c from ./m"]));
    // Nothing after the first import line is kept.
    assert_eq!(cleaned, "// header\n");
}

#[test]
fn javascript_namespace_side_effect_and_dynamic() {
    let src = "import * as ns from 'lib';\nimport 'styles.css';\nconst m = import('./lazy');\n";
    let (imports, _) = javascript_imports(src);
    assert_eq!(imports, strs(&["*:ns from lib", "side-effect:styles.css", "dynamic:./lazy"]));
}

#[test]
fn javascript_block_comments_are_dropped() {
    let src = "/* start\nimport x from 'y';\n*/\nlet a = 1;\n";
    let (imports, cleaned) = javascript_imports(src);
    assert!(imports.is_empty());
    assert_eq!(cleaned, "let a = 1;\n");
}

#[test]
fn javascript_line_with_given_matches() {
    let mut scan = JavascriptScan::new();
    let line: Vec<char> = "whatever".chars().collect();
    let m = JavascriptLineMatches {
        default_groups: None,
        named_groups: Some((Some(" q ,  r as s ".to_string()), Some("mod".to_string()))),
        namespace_groups: None,
        side_effect_groups: Some((Some("ignored".to_string()), None)),
        dynamic_groups: None,
    };
    javascript_line(&mut scan, &line, &m);
    assert_eq!(scan.imports, strs(&["q:q from mod", "r:s from mod", "side-effect:ignored"]));
    assert!(scan.skip_line);
}

#[test]
fn extract_imports_by_language() {
    let (i, c) = extract_imports("use a::b;\nx\n", "rs");
    assert_eq!(i, strs(&["a::b"]));
    assert_eq!(c, "x\n");
    let (i, c) = extract_imports("import os\n", "py");
    assert_eq!(i, strs(&["os"]));
    assert_eq!(c, "");
    let (i, _) = extract_imports("import x from 'y';\n", "ts");
    assert_eq!(i, strs(&["default:x from y"]));
    let (i, c) = extract_imports("anything\nhere", "go");
    assert!(i.is_empty());
    assert_eq!(c, "anything\nhere");
}
