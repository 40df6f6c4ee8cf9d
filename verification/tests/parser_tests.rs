use fsf::split_fstring;
use fsf::Declaration;
use fsf::Expression;
use fsf::ExpressionWithBlock;
use fsf::ExpressionWithoutBlock;
use fsf::FStringChunk;
use fsf::Item;
use fsf::Literal;
use fsf::Parser;
use fsf::Scanner;
use fsf::Statement;

fn parse_items(source: &str) -> Vec<Item> {
    let mut scanner = Scanner::new(source.to_string());
    let tokens = scanner.scan_tokens().expect("scan should succeed");
    let mut parser = Parser::new(tokens, vec!["main".to_string()]);
    parser.parse().expect("parse should succeed")
}

fn parse_error(source: &str) -> String {
    let mut scanner = Scanner::new(source.to_string());
    let tokens = scanner.scan_tokens().expect("scan should succeed");
    let mut parser = Parser::new(tokens, vec!["main".to_string()]);
    match parser.parse() {
        Ok(_) => panic!("expected a parse error"),
        Err(e) => e.message().clone(),
    }
}

fn only_function_body(items: &[Item]) -> &fsf::BlockExpression {
    match &items[0] {
        Item::Function { body, .. } => body,
        other => panic!("expected a function, got {:?}", other),
    }
}

#[test]
fn test_block_with_tail_value() {
    // `{ let x = 1; x }` parses with statements=[Let x=1] and
    // tail=Some(Variable x).
    let items = parse_items("fn f() { let x = 1; x }");
    let body = only_function_body(&items);
    assert_eq!(body.statements.len(), 1);
    match &body.statements[0] {
        Statement::Let { declaration: Declaration::Name(t), .. } => assert_eq!(t.lexeme, "x"),
        other => panic!("expected a let statement, got {:?}", other),
    }
    match &body.expr {
        Some(ExpressionWithoutBlock::Variable(t)) => assert_eq!(t.lexeme, "x"),
        other => panic!("expected a variable tail, got {:?}", other),
    }
}

#[test]
fn test_block_tail_is_always_last() {
    // `{ let x = 1; x; 2 }` parses with statements=[Let, Expression(x)]
    // and tail=Some(Literal 2).
    let items = parse_items("fn f() { let x = 1; x; 2 }");
    let body = only_function_body(&items);
    assert_eq!(body.statements.len(), 2);
    match &body.statements[1] {
        Statement::Expression(Expression::WithoutBlock(ExpressionWithoutBlock::Variable(t))) => {
            assert_eq!(t.lexeme, "x")
        },
        other => panic!("expected an expression statement, got {:?}", other),
    }
    match &body.expr {
        Some(ExpressionWithoutBlock::Literal(Literal::Number(n))) => assert_eq!(n, "2"),
        other => panic!("expected a literal tail, got {:?}", other),
    }
}

#[test]
fn test_statement_after_tail_expression_is_an_error() {
    let message = parse_error("fn f() { 1 2 }");
    assert_eq!(message, "Expect ';' after expression");
}

#[test]
fn test_if_condition_is_not_a_struct_literal() {
    // Inside an `if` condition, `Point { 1 }` is the condition `Point`
    // followed by the body block `{ 1 }`.
    let items = parse_items("fn f() { if Point { 1 } }");
    let body = only_function_body(&items);
    match &body.statements[0] {
        Statement::Expression(Expression::WithBlock(ExpressionWithBlock::If {
            expr,
            then,
            else_branch,
        })) => {
            match &**expr {
                Expression::WithoutBlock(ExpressionWithoutBlock::Variable(t)) => {
                    assert_eq!(t.lexeme, "Point")
                },
                other => panic!("condition must be a variable, got {:?}", other),
            }
            assert!(then.statements.is_empty());
            assert!(matches!(
                then.expr,
                Some(ExpressionWithoutBlock::Literal(Literal::Number(_)))
            ));
            assert!(else_branch.is_none());
        },
        other => panic!("expected an if expression, got {:?}", other),
    }
}

fn assert_point_struct_literal(source: &str) {
    let items = parse_items(source);
    let body = only_function_body(&items);
    match &body.statements[0] {
        Statement::Let { expression, .. } => match expression {
            Expression::WithoutBlock(ExpressionWithoutBlock::Struct { name, fields }) => {
                assert_eq!(name.lexeme, "Point");
                assert_eq!(fields.len(), 2);
                assert_eq!(fields[0].0.lexeme, "x");
                assert_eq!(fields[1].0.lexeme, "y");
            },
            other => panic!("expected a struct literal, got {:?}", other),
        },
        other => panic!("expected a let statement, got {:?}", other),
    }
}

#[test]
fn test_struct_literal_outside_condition() {
    // The last field needs no trailing comma.
    assert_point_struct_literal("fn f() { let p = Point { x: 1, y: 2 }; }");
}

#[test]
fn test_struct_literal_accepts_trailing_comma() {
    assert_point_struct_literal("fn f() { let p = Point { x: 1, y: 2, }; }");
}

#[test]
fn test_struct_literal_missing_separator_is_an_error() {
    let message = parse_error("fn f() { let p = Point { x: 1 y: 2 }; }");
    assert_eq!(message, "Expect ',' after field initialisation");
}

#[test]
fn test_parameter_requires_type_annotation() {
    let message = parse_error("fn f(a) { }");
    assert_eq!(message, "Expect type annotation");
}

#[test]
fn test_assignment_to_non_variable_is_an_error() {
    let message = parse_error("fn f() { a.b = 1; }");
    assert_eq!(message, "Invalid assignment target");
}

#[test]
fn test_compound_assignment_to_call_is_an_error() {
    let message = parse_error("fn f() { g() += 1; }");
    assert_eq!(message, "Invalid assignment target");
}

#[test]
fn test_import_item() {
    let items = parse_items("import widgets::button;");
    match &items[0] {
        Item::Import { path } => assert_eq!(path, &vec!["widgets".to_string(), "button".to_string()]),
        other => panic!("expected an import, got {:?}", other),
    }
}

#[test]
fn test_struct_item() {
    let items = parse_items("struct P { x: int, y: str, }");
    match &items[0] {
        Item::Struct { name, fields } => {
            assert_eq!(name, "P");
            assert_eq!(fields.len(), 2);
            assert_eq!(fields[0].name, "x");
            assert_eq!(fields[0].type_annotation, "int");
        },
        other => panic!("expected a struct, got {:?}", other),
    }
}

#[test]
fn test_component_rejects_return_type() {
    // A component never takes a `->` return annotation: the arrow is not
    // consumed, so the body brace is missing.
    let message = parse_error("cmpnt c() -> int { 1 }");
    assert_eq!(message, "Expected '{'");
}

#[test]
fn test_uninitialized_let_is_an_error() {
    let message = parse_error("fn f() { let x; }");
    assert_eq!(message, "All variables must be initialized");
}

#[test]
fn test_precedence_ladder() {
    // 1 + 2 * 3 groups the product under the sum.
    let items = parse_items("fn f() { 1 + 2 * 3 }");
    let body = only_function_body(&items);
    match &body.expr {
        Some(ExpressionWithoutBlock::Binary { left, operator, right }) => {
            assert_eq!(operator.lexeme, "+");
            assert!(matches!(
                **left,
                ExpressionWithoutBlock::Literal(Literal::Number(_))
            ));
            match &**right {
                ExpressionWithoutBlock::Binary { operator, .. } => {
                    assert_eq!(operator.lexeme, "*")
                },
                other => panic!("expected a product, got {:?}", other),
            }
        },
        other => panic!("expected a sum, got {:?}", other),
    }
}

#[test]
fn test_html_closing_tag_must_match() {
    let message = parse_error("fn f() { <div> \"x\" </span> }");
    assert_eq!(message, "Closing tag does not match opening tag");
}

#[test]
fn test_tuple_and_array_literals() {
    let items = parse_items("fn f() { let t = (1, 2); let a = [1, 2, 3]; }");
    let body = only_function_body(&items);
    match &body.statements[0] {
        Statement::Let { expression: Expression::WithoutBlock(ExpressionWithoutBlock::Tuple { elements }), .. } => {
            assert_eq!(elements.len(), 2)
        },
        other => panic!("expected a tuple, got {:?}", other),
    }
    match &body.statements[1] {
        Statement::Let { expression: Expression::WithoutBlock(ExpressionWithoutBlock::Array { elements }), .. } => {
            assert_eq!(elements.len(), 3)
        },
        other => panic!("expected an array, got {:?}", other),
    }
}

fn chunk_eq(c: &FStringChunk, want_literal: Option<&str>, want_identifier: Option<&str>) -> bool {
    match (c, want_literal, want_identifier) {
        (FStringChunk::Literal(s), Some(w), None) => s == w,
        (FStringChunk::Identifier(s), None, Some(w)) => s == w,
        _ => false,
    }
}

#[test]
fn test_fstring_chunk_splitting() {
    let chunks = split_fstring("Hello {name}!");
    assert_eq!(chunks.len(), 3);
    assert!(chunk_eq(&chunks[0], Some("Hello "), None));
    assert!(chunk_eq(&chunks[1], None, Some("name")));
    assert!(chunk_eq(&chunks[2], Some("!"), None));
}

#[test]
fn test_fstring_adjacent_identifiers_have_no_empty_literals() {
    let chunks = split_fstring("{a}{b}");
    assert_eq!(chunks.len(), 2);
    assert!(chunk_eq(&chunks[0], None, Some("a")));
    assert!(chunk_eq(&chunks[1], None, Some("b")));
}

#[test]
fn test_fstring_unterminated_brace_kept_as_literal() {
    let chunks = split_fstring("Hello {");
    assert_eq!(chunks.len(), 2);
    assert!(chunk_eq(&chunks[0], Some("Hello "), None));
    assert!(chunk_eq(&chunks[1], Some("{"), None));
}
