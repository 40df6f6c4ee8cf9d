use fsf::GoIdentifierTransformer;
use fsf::Item;
use fsf::JsTarget;
use fsf::Literal;
use fsf::Module;
use fsf::ModuleSource;
use fsf::Parser;
use fsf::Scanner;
use fsf::Statement;
use fsf::StandardLibraryTransformer;
use fsf::TestCollector;
use fsf::TestRunnerTransformer;

fn parse_module(source: &str, path: &[&str]) -> Module {
    let mut scanner = Scanner::new(source.to_string());
    let tokens = scanner.scan_tokens().expect("scan should succeed");
    let mut parser = Parser::new(tokens, path.iter().map(|s| s.to_string()).collect());
    Module {
        path: path.iter().map(|s| s.to_string()).collect(),
        items: parser.parse().expect("parse should succeed"),
    }
}

fn root() -> Vec<String> {
    vec!["proj".to_string()]
}

#[test]
fn test_qualification_prefixes_function_names_once() {
    let module = parse_module(
        "fn helper() { 1 }\nfn main() { helper(); }",
        &["proj", "utils"],
    );
    let mut program = vec![module];
    let mut pass = GoIdentifierTransformer::new(root());
    pass.transform(&mut program);
    match &program[0].items[0] {
        Item::Function { name, .. } => assert_eq!(name, "utils_helper"),
        other => panic!("expected a function, got {:?}", other),
    }
    match &program[0].items[1] {
        Item::Function { name, .. } => assert_eq!(name, "main"),
        other => panic!("expected a function, got {:?}", other),
    }
}

#[test]
fn test_qualification_rewrites_references() {
    let module = parse_module(
        "fn helper() { 1 }\nfn main() { helper(); }",
        &["proj", "utils"],
    );
    let mut program = vec![module];
    let mut pass = GoIdentifierTransformer::new(root());
    pass.transform(&mut program);
    let body = match &program[0].items[1] {
        Item::Function { body, .. } => body,
        other => panic!("expected a function, got {:?}", other),
    };
    match &body.statements[0] {
        Statement::Expression(fsf::Expression::WithoutBlock(
            fsf::ExpressionWithoutBlock::Call { callee, .. },
        )) => match &**callee {
            fsf::ExpressionWithoutBlock::Variable(t) => assert_eq!(t.lexeme, "utils_helper"),
            other => panic!("expected a variable callee, got {:?}", other),
        },
        other => panic!("expected a call statement, got {:?}", other),
    }
}

#[test]
fn test_qualification_rewrites_imported_references() {
    let module = parse_module(
        "import widgets::button;\nfn main() { button(); }",
        &["proj", "app"],
    );
    let mut program = vec![module];
    let mut pass = GoIdentifierTransformer::new(root());
    pass.transform(&mut program);
    let body = match &program[0].items[1] {
        Item::Function { body, .. } => body,
        other => panic!("expected a function, got {:?}", other),
    };
    match &body.statements[0] {
        Statement::Expression(fsf::Expression::WithoutBlock(
            fsf::ExpressionWithoutBlock::Call { callee, .. },
        )) => match &**callee {
            fsf::ExpressionWithoutBlock::Variable(t) => {
                assert_eq!(t.lexeme, "widgets_button")
            },
            other => panic!("expected a variable callee, got {:?}", other),
        },
        other => panic!("expected a call statement, got {:?}", other),
    }
}

#[test]
fn test_qualification_is_idempotent() {
    // Running the pass twice leaves the program exactly as one run does;
    // the generated text is compared, which covers names and references.
    let source = "fn helper() { 1 }\nfn main() { helper(); }";
    let mut once = vec![parse_module(source, &["proj", "utils"])];
    let mut pass1 = GoIdentifierTransformer::new(root());
    pass1.transform(&mut once);
    let mut twice = vec![parse_module(source, &["proj", "utils"])];
    let mut pass2 = GoIdentifierTransformer::new(root());
    pass2.transform(&mut twice);
    let mut pass3 = GoIdentifierTransformer::new(root());
    pass3.transform(&mut twice);
    let mut js1 = JsTarget::new();
    let mut js2 = JsTarget::new();
    let text_once = js1.compile(&once).expect("compile once");
    let text_twice = js2.compile(&twice).expect("compile twice");
    assert_eq!(text_once, text_twice);
}

#[test]
fn test_harness_synthesis_for_two_modules() {
    // Two modules, each with one test-prefixed function: the synthesized
    // module must import exactly two qualified test names and hold exactly
    // two labelled invocations.
    let m1 = parse_module("fn test_one() { 1 }", &["proj", "alpha"]);
    let m2 = parse_module("fn test_two() { 2 }", &["proj", "beta"]);
    let mut program = vec![m1, m2];
    let mut pass = TestRunnerTransformer::new(root());
    pass.transform(&mut program);
    assert_eq!(program.len(), 3);
    let harness = &program[2];
    assert_eq!(harness.path, vec!["proj".to_string(), "main".to_string()]);
    assert_eq!(harness.items.len(), 4);
    assert!(matches!(harness.items[0], Item::TestRunner));
    match &harness.items[1] {
        Item::Import { path } => {
            assert_eq!(path, &vec!["alpha".to_string(), "test_one".to_string()])
        },
        other => panic!("expected an import, got {:?}", other),
    }
    match &harness.items[2] {
        Item::Import { path } => {
            assert_eq!(path, &vec!["beta".to_string(), "test_two".to_string()])
        },
        other => panic!("expected an import, got {:?}", other),
    }
    let body = match &harness.items[3] {
        Item::Function { name, body, .. } => {
            assert_eq!(name, "main");
            body
        },
        other => panic!("expected the entry function, got {:?}", other),
    };
    assert_eq!(body.statements.len(), 2);
    let labels: Vec<String> = body
        .statements
        .iter()
        .map(|s| match s {
            Statement::RunTest { test_name, .. } => match &test_name.value {
                Some(Literal::String(l)) => l.clone(),
                other => panic!("expected a string label, got {:?}", other),
            },
            other => panic!("expected a run-test statement, got {:?}", other),
        })
        .collect();
    assert_eq!(labels, vec!["alpha::test_one".to_string(), "beta::test_two".to_string()]);
}

#[test]
fn test_harness_then_qualification_qualifies_generated_references() {
    let m1 = parse_module("fn test_one() { 1 }", &["proj", "alpha"]);
    let mut program = vec![m1];
    let mut harness_pass = TestRunnerTransformer::new(root());
    harness_pass.transform(&mut program);
    let mut qual = GoIdentifierTransformer::new(root());
    qual.transform(&mut program);
    let harness = &program[1];
    let body = match &harness.items[2] {
        Item::Function { body, .. } => body,
        other => panic!("expected the entry function, got {:?}", other),
    };
    match &body.statements[0] {
        Statement::RunTest { function_name, .. } => match &**function_name {
            fsf::Expression::WithoutBlock(fsf::ExpressionWithoutBlock::Variable(t)) => {
                assert_eq!(t.lexeme, "alpha_test_one")
            },
            other => panic!("expected a variable, got {:?}", other),
        },
        other => panic!("expected a run-test statement, got {:?}", other),
    }
}

#[test]
fn test_collector_finds_test_functions_in_order() {
    let m1 = parse_module("fn test_one() { 1 }\nfn other() { 2 }", &["proj", "alpha"]);
    let m2 = parse_module("fn testtwo() { 2 }", &["proj", "beta"]);
    let program = vec![m1, m2];
    let names = TestCollector::all_tests(&program);
    assert_eq!(names, vec!["test_one".to_string(), "testtwo".to_string()]);
    let _ = TestCollector::new();
}

#[test]
fn test_stdlib_inclusion_appends_parsed_modules() {
    let mut program = vec![parse_module("fn main() { 1 }", &["proj", "main"])];
    let sources = vec![ModuleSource {
        contents: "fn reverse() { 1 }".to_string(),
        relative_path: vec!["lists".to_string()],
    }];
    let mut pass = StandardLibraryTransformer::new(root());
    pass.transform(&mut program, sources).expect("inclusion should succeed");
    assert_eq!(program.len(), 2);
    assert_eq!(
        program[1].path,
        vec!["proj".to_string(), "std".to_string(), "lists".to_string()]
    );
    assert_eq!(program[1].items.len(), 1);
}

#[test]
fn test_stdlib_inclusion_propagates_parse_errors() {
    let mut program: Vec<Module> = Vec::new();
    let sources = vec![ModuleSource {
        contents: "fn broken(".to_string(),
        relative_path: vec!["bad".to_string()],
    }];
    let mut pass = StandardLibraryTransformer::new(root());
    assert!(pass.transform(&mut program, sources).is_err());
    assert!(program.is_empty());
}
