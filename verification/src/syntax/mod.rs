pub mod ast;
pub mod model;
pub mod sem;
pub mod meta;
pub mod cond;
pub mod compile;
pub mod api;
pub mod ctor;
pub mod ident;
pub mod parse_meta;
pub mod op_expr;
pub mod import;
pub mod display;
pub mod report;
pub mod laws;
pub mod sugar;
pub mod def;
