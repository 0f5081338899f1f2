pub mod ast;
pub mod syntax;
pub mod parser;
pub mod parse_expr;
pub mod parse_type;
pub mod parse_stmt;
pub mod parse_decl;
pub mod to_ir;
pub mod projection;
pub mod domain;
pub mod sources;
pub mod app_config;
