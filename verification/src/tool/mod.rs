pub mod ast_generator;
