pub mod ast;
pub mod canvas;
pub mod engine;
pub mod float;
pub mod keys;
pub mod natives;
pub mod registry;
pub mod report;
pub mod store;
pub mod value;
