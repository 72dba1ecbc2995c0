pub mod ast;
pub mod entity;
pub mod error;
pub mod mir;
pub mod scope;
pub mod typer;
pub mod resolve;
pub mod statements;
