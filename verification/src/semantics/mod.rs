pub mod analyzer;
pub mod ctx;
pub mod diagnostics;
pub mod hir;
pub mod source;
pub mod stages;
pub mod symbol;

