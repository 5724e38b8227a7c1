pub mod ast;
pub mod decimal;
pub mod error;
pub mod number;
pub mod text;
pub mod token;
pub mod token_type;
pub mod evaluator;
pub mod scanner;
pub mod parser;
pub mod printer;
pub mod laws;
pub mod nesting;
pub mod lines;
