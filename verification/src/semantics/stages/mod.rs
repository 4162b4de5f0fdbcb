pub mod literal;
pub mod ast_lowering;
pub mod name_resolution;
pub mod type_inference;
pub mod type_checking;
