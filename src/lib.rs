pub mod engine;
pub mod laws;
pub mod render;
pub mod tool;
pub mod tree;

pub use tool::{ParseSqlTool, ToolError};
pub use tree::{Point, SyntaxNode};
