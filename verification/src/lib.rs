//! A small source-to-source compiler front end: a scanner, a recursive-descent
//! parser for an expression-oriented language, transform passes over the
//! resulting syntax tree, and two text code generators.

mod ast_visitor;
mod codegen;
mod expression;
mod go_compiler;
mod fstring;
mod item;
mod js_target;
mod parser;
mod printer;
mod program;
mod scanner;
mod statement;
mod strutil;
mod test_collector;
mod token;
mod transformers;

pub use ast_visitor::walk_ast;
pub use ast_visitor::AstVisitor;
pub use codegen::CompileError;
pub use codegen::ModuleOutput;
pub use expression::BlockExpression;
pub use go_compiler::GoCompiler;
pub use expression::Expression;
pub use expression::ExpressionWithBlock;
pub use expression::ExpressionWithoutBlock;
pub use expression::FStringChunk;
pub use expression::LambdaParameter;
pub use item::Item;
pub use item::Parameter;
pub use item::StructField;
pub use js_target::JsTarget;
pub use parser::ParseContext;
pub use parser::ParseError;
pub use parser::Parser;
pub use printer::print;
pub use fstring::split_fstring;
pub use program::Module;
pub use program::Program;
pub use scanner::ScanError;
pub use scanner::Scanner;
pub use statement::Declaration;
pub use statement::MaybeStatement;
pub use statement::Statement;
pub use strutil::contains_sub;
pub use strutil::has_prefix;
pub use strutil::join_strings;
pub use strutil::str_eq;
pub use strutil::usize_to_string;
pub use test_collector::TestCollector;
pub use token::Literal;
pub use transformers::GoIdentifierTransformer;
pub use transformers::JsIdentifierTransformer;
pub use transformers::LoadError;
pub use transformers::ModuleSource;
pub use transformers::NameMap;
pub use transformers::StandardLibraryTransformer;
pub use transformers::TestRunnerTransformer;
pub use token::Token;
pub use token::TokenType;
