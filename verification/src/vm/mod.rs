pub mod ast_node;
pub mod chunk;
pub mod compiler;
pub mod laws;
pub mod parser;
pub mod traits;
pub mod vm;
