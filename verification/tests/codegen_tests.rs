use fsf::GoCompiler;
use fsf::JsTarget;
use fsf::Module;
use fsf::Parser;
use fsf::Scanner;

fn parse_module(source: &str, path: &[&str]) -> Module {
    let mut scanner = Scanner::new(source.to_string());
    let tokens = scanner.scan_tokens().expect("scan should succeed");
    let mut parser = Parser::new(tokens, path.iter().map(|s| s.to_string()).collect());
    Module {
        path: path.iter().map(|s| s.to_string()).collect(),
        items: parser.parse().expect("parse should succeed"),
    }
}

#[test]
fn test_go_end_to_end_add_and_assert() {
    let source = "fn add(a: int, b: int) -> int { a + b }\nfn main() { assert_eq(add(2, 3), 5); }";
    let module = parse_module(source, &["proj", "main"]);
    let program = vec![module];
    let mut compiler = GoCompiler::new();
    let outputs = compiler.compile(&program).expect("compile should succeed");
    assert_eq!(outputs.len(), 1);
    assert_eq!(outputs[0].name, "main");
    let text = &outputs[0].contents;
    assert!(text.starts_with("package main\n"));
    assert!(text.contains("func add(a int, b int) int {"));
    assert!(text.contains("\nreturn a + b\n"));
    assert!(text.contains("if (add(2, 3) != 5) {\npanic(`add(2, 3) != 5`)}\n"));
}

#[test]
fn test_go_failing_assert_names_both_sides() {
    let source = "fn add(a: int, b: int) -> int { a + b }\nfn main() { assert_eq(add(2, 3), 6); }";
    let module = parse_module(source, &["proj", "main"]);
    let mut compiler = GoCompiler::new();
    let outputs = compiler.compile(&vec![module]).expect("compile should succeed");
    assert!(outputs[0].contents.contains("panic(`add(2, 3) != 6`)"));
}

#[test]
fn test_go_print_pulls_in_format_import() {
    let with_print = parse_module("fn main() { print(1); }", &["proj", "main"]);
    let mut compiler = GoCompiler::new();
    let outputs = compiler.compile(&vec![with_print]).expect("compile should succeed");
    assert!(outputs[0].contents.contains("import \"fmt\"\n"));
    assert!(outputs[0].contents.contains("fmt.Println(1)\n"));

    let without_print = parse_module("fn main() { let x = 1; }", &["proj", "main"]);
    let mut compiler2 = GoCompiler::new();
    let outputs2 = compiler2.compile(&vec![without_print]).expect("compile should succeed");
    assert!(!outputs2[0].contents.contains("import \"fmt\""));
}

#[test]
fn test_go_rejects_struct_items() {
    let module = parse_module("struct P { x: int, }", &["proj", "main"]);
    let mut compiler = GoCompiler::new();
    let result = compiler.compile(&vec![module]);
    assert!(result.is_err());
}

#[test]
fn test_go_rejects_unary_expressions() {
    let module = parse_module("fn main() { let x = -1; }", &["proj", "main"]);
    let mut compiler = GoCompiler::new();
    assert!(compiler.compile(&vec![module]).is_err());
}

#[test]
fn test_go_raw_escapes_are_one_sided() {
    let module = parse_module(
        "fn main() { @go(\"goCode()\"); @js(\"jsCode()\"); }",
        &["proj", "main"],
    );
    let mut compiler = GoCompiler::new();
    let outputs = compiler.compile(&vec![module]).expect("compile should succeed");
    assert!(outputs[0].contents.contains("goCode()"));
    assert!(!outputs[0].contents.contains("jsCode()"));
}

#[test]
fn test_go_array_literal_and_destructuring() {
    let module = parse_module(
        "fn main() { let [a, b] = [1, 2]; }",
        &["proj", "main"],
    );
    let mut compiler = GoCompiler::new();
    let outputs = compiler.compile(&vec![module]).expect("compile should succeed");
    let text = &outputs[0].contents;
    assert!(text.contains("x_tmp :=  [2]int{1, 2}\n"));
    assert!(text.contains("a := x_tmp[0]\nb := x_tmp[1]\n"));
}

#[test]
fn test_go_interpolation_compiles_to_format_call() {
    let module = parse_module("fn main() { print(`Hi {name}!`); }", &["proj", "main"]);
    let mut compiler = GoCompiler::new();
    let outputs = compiler.compile(&vec![module]).expect("compile should succeed");
    assert!(outputs[0].contents.contains("fmt.Sprintf(\"Hi %v!\", name)"));
}

#[test]
fn test_go_test_runner_snippet_is_emitted() {
    let module = parse_module("__TEST_RUNNER;", &["proj", "main"]);
    let mut compiler = GoCompiler::new();
    let outputs = compiler.compile(&vec![module]).expect("compile should succeed");
    assert!(outputs[0].contents.contains("func runTest(test func(), name string) {"));
    assert!(outputs[0].contents.contains("fmt.Printf(\"%s...\", name)"));
}

#[test]
fn test_js_end_to_end_add_and_assert() {
    let source = "fn add(a: int, b: int) -> int { a + b }\nfn main() { assert_eq(add(2, 3), 5); }";
    let module = parse_module(source, &["proj", "main"]);
    let mut target = JsTarget::new();
    let text = target.compile(&vec![module]).expect("compile should succeed");
    assert!(text.contains("function add(a, b) {"));
    assert!(text.contains("\nreturn a + b\n"));
    assert!(text.contains("if (add(2, 3) != 5) {\nthrow new Error(`add(2, 3) != 5`);\n}\n"));
}

#[test]
fn test_js_interpolation_compiles_to_template_literal() {
    let module = parse_module("fn main() { print(`Hi {name}!`); }", &["proj", "main"]);
    let mut target = JsTarget::new();
    let text = target.compile(&vec![module]).expect("compile should succeed");
    assert!(text.contains("console.log(`Hi ${name}!`);\n"));
}

#[test]
fn test_js_struct_literal_compiles_to_record() {
    let module = parse_module(
        "fn main() { let p = Point { x: 1, y: 2, }; }",
        &["proj", "main"],
    );
    let mut target = JsTarget::new();
    let text = target.compile(&vec![module]).expect("compile should succeed");
    assert!(text.contains("let p = {\nx: 1,\ny: 2};\n"));
}

#[test]
fn test_js_tag_expression_with_attribute_remapping() {
    // A nested tag stands before the string child: a string followed by
    // `<` would read as a comparison, as the grammar dictates.
    let module = parse_module(
        "cmpnt c() { <div onclick={f} id={g}> <span> \"s\" </span> \"hi\" </div> }",
        &["proj", "main"],
    );
    let mut target = JsTarget::new();
    let text = target.compile(&vec![module]).expect("compile should succeed");
    assert!(text.contains("<div onClick={f} id={g}>"));
    assert!(text.contains("{\"hi\"}"));
    assert!(text.contains("<span "));
    assert!(text.contains("</div>"));
}

#[test]
fn test_js_raw_escapes_are_one_sided() {
    let module = parse_module(
        "fn main() { @go(\"goCode()\"); @js(\"jsCode()\"); }",
        &["proj", "main"],
    );
    let mut target = JsTarget::new();
    let text = target.compile(&vec![module]).expect("compile should succeed");
    assert!(text.contains("jsCode()"));
    assert!(!text.contains("goCode()"));
}

#[test]
fn test_js_component_without_tail_is_rejected() {
    let module = parse_module("cmpnt c() { let x = 1; }", &["proj", "main"]);
    let mut target = JsTarget::new();
    assert!(target.compile(&vec![module]).is_err());
}

#[test]
fn test_js_test_runner_snippet_is_emitted() {
    let module = parse_module("__TEST_RUNNER;", &["proj", "main"]);
    let mut target = JsTarget::new();
    let text = target.compile(&vec![module]).expect("compile should succeed");
    assert!(text.contains("function runTest(test, name) {"));
    assert!(text.contains("process.stdout.write(\" pass\\n\");"));
}

#[test]
fn test_both_backends_render_the_common_subset() {
    // The common subset (arithmetic, literals, let bindings, print,
    // assert-equality) is rendered by both backends with matching
    // structure: same declared names, same computed expressions, same
    // assertion on the same sides.
    let source =
        "fn main() { let x = 2 + 3 * 4; print(x); assert_eq(x, 14); }";
    let module_for_go = parse_module(source, &["proj", "main"]);
    let module_for_js = parse_module(source, &["proj", "main"]);
    let mut go = GoCompiler::new();
    let go_text = go.compile(&vec![module_for_go]).expect("go compile")[0].contents.clone();
    let mut js = JsTarget::new();
    let js_text = js.compile(&vec![module_for_js]).expect("js compile");
    for piece in ["2 + 3 * 4", "x != 14"] {
        assert!(go_text.contains(piece), "missing {piece} in go output");
        assert!(js_text.contains(piece), "missing {piece} in js output");
    }
    assert!(go_text.contains("fmt.Println(x)"));
    assert!(js_text.contains("console.log(x);"));
}
