pub mod keys;
pub mod table;
pub mod text;
pub mod decimal;
pub mod ast;
pub mod types;
pub mod effects;
pub mod typed_ast;
pub mod type_checker;
pub mod state;
pub mod abstract_interpreter;
pub mod interpreter;
pub mod bytecode;
pub mod digest;
pub mod machine;
pub mod lexer;
pub mod parser;
pub mod compiler;
pub mod zk;
pub mod render;
