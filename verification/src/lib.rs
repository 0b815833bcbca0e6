//! A front end and evaluator for the Lox language: characters to tokens,
//! tokens to syntax trees, and syntax trees to values.

pub mod ast;
pub mod cursor;
pub mod environment;
pub mod expressions;
pub mod grammar;
pub mod interpreter;
pub mod lexer;
pub mod machine;
pub mod named;
pub mod parser;
pub mod precedence;
pub mod printer;
pub mod progress;
pub mod relex;
pub mod scopes;
pub mod statements;
pub mod text;
pub mod token;
pub mod unicode;
pub mod value;
pub mod visit;
