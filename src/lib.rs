//! Construction of the abstract syntax trees of Helena sources: nodes that validate their own
//! text, declare what may follow them, and render as indented text.
pub mod common;
pub mod function;
pub mod generator;
pub mod node;
pub mod pattern;
pub mod position;
pub mod render;

pub use function::ValueParameterDeclaration;
pub use generator::{generate_ast, generate_ast_with, max_leafing, MaxLeafing};
pub use node::{Node, UnmatchedPatternError};
