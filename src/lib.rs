//! Renders a tree as lines of text in the style of `tree(1)`:
//!
//! ```text
//! Parent
//! ├── Child 1
//! ├── Child 2
//! │   ├── Grandchild 1
//! │   └── Grandchild 2
//! └── Child 3
//! ```
pub mod laws;
pub mod model;
pub mod node;
pub mod render;

pub use model::Tree;
pub use node::{BasicNode, Node};
pub use render::render;
