pub mod ast;
pub mod casing;
pub mod diagnostic;
pub mod input;
pub mod lexer;
pub mod parser;
pub mod pipeline;
pub mod semantics;
pub mod source;
pub mod span;
pub mod text;
