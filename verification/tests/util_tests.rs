use fsf::contains_sub;
use fsf::has_prefix;
use fsf::join_strings;
use fsf::print;
use fsf::str_eq;
use fsf::usize_to_string;
use fsf::ExpressionWithoutBlock;
use fsf::Literal;
use fsf::Token;
use fsf::TokenType;

#[test]
fn test_join_strings_inserts_separator() {
    // Would fail if the join handed an argument back unchanged.
    let parts = vec!["a".to_string(), "b".to_string(), "c".to_string()];
    assert_eq!(join_strings(&parts, ", "), "a, b, c");
    assert_eq!(join_strings(&parts, ""), "abc");
    assert_eq!(join_strings(&vec!["x".to_string()], ", "), "x");
    assert_eq!(join_strings(&Vec::new(), ", "), "");
}

#[test]
fn test_contains_sub() {
    assert!(contains_sub("package main\nfmt.Println(1)", "fmt."));
    assert!(!contains_sub("package main", "fmt."));
    assert!(contains_sub("abc", ""));
    assert!(!contains_sub("ab", "abc"));
}

#[test]
fn test_has_prefix_and_str_eq() {
    assert!(has_prefix("test_one", "test_"));
    assert!(!has_prefix("tes", "test_"));
    assert!(str_eq("same", "same"));
    assert!(!str_eq("same", "samey"));
}

#[test]
fn test_usize_to_string_exact_values() {
    assert_eq!(usize_to_string(0), "0");
    assert_eq!(usize_to_string(7), "7");
    assert_eq!(usize_to_string(10), "10");
    assert_eq!(usize_to_string(90210), "90210");
}

fn number(n: &str) -> ExpressionWithoutBlock {
    ExpressionWithoutBlock::Literal(Literal::Number(n.to_string()))
}

fn op(lexeme: &str, kind: TokenType) -> Token {
    Token::new(kind, lexeme.to_string(), None, 1)
}

#[test]
fn test_printer_renders_prefix_form() {
    let expr = ExpressionWithoutBlock::Binary {
        left: Box::new(number("1")),
        operator: op("+", TokenType::Plus),
        right: Box::new(ExpressionWithoutBlock::Grouping(Box::new(
            ExpressionWithoutBlock::Unary {
                operator: op("-", TokenType::Minus),
                right: Box::new(number("2")),
            },
        ))),
    };
    assert_eq!(print(&expr).expect("printable"), "(+ 1 (group (- 2)))");
}

#[test]
fn test_printer_refuses_unsupported_shapes() {
    let expr = ExpressionWithoutBlock::Variable(op("x", TokenType::Identifier));
    assert!(print(&expr).is_none());
}

#[test]
fn test_name_map_last_insertion_wins() {
    let mut map = fsf::NameMap::new();
    assert!(map.get("f").is_none());
    map.insert("f".to_string(), "m_f".to_string());
    map.insert("g".to_string(), "m_g".to_string());
    map.insert("f".to_string(), "n_f".to_string());
    assert_eq!(map.get("f"), Some("n_f".to_string()));
    assert_eq!(map.get("g"), Some("m_g".to_string()));
    assert!(map.get("h").is_none());
}

struct CountingVisitor {
    expressions: usize,
    statements: usize,
}

impl fsf::AstVisitor for CountingVisitor {
    fn visit_statement(&mut self, _statement: &fsf::Statement) {
        self.statements += 1;
    }

    fn visit_expression_without_block(&mut self, _expression: &fsf::ExpressionWithoutBlock) {
        self.expressions += 1;
    }
}

#[test]
fn test_walker_visits_every_node_once() {
    let mut scanner = fsf::Scanner::new("fn f() { let x = 1 + 2; print(x); }".to_string());
    let tokens = scanner.scan_tokens().expect("scan");
    let mut parser = fsf::Parser::new(tokens, vec!["m".to_string()]);
    let items = parser.parse().expect("parse");
    let program = vec![fsf::Module { path: vec!["m".to_string()], items }];
    let mut visitor = CountingVisitor { expressions: 0, statements: 0 };
    fsf::walk_ast(&program, &mut visitor);
    assert_eq!(visitor.statements, 2);
    // The sum node with its two literals, then the printed variable.
    assert_eq!(visitor.expressions, 4);
}
