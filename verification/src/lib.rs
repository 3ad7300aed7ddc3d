//! The Ignis compiler front matter: tokens, types, syntax tree, the
//! evaluator's scoped environment, the Lua back end and the driver's
//! pure computations.

pub mod token;
pub mod data_type;
pub mod text;
pub mod environment;
pub mod ast;
pub mod ir;
pub mod to_lua;
pub mod driver;
