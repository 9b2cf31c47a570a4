//! A collapsible tree of a hierarchical value for an immediate-mode interface.
//!
//! An immediate-mode interface rebuilds what it shows in every frame and
//! keeps no widget objects, so whether a node is expanded cannot live on the
//! node. This library derives a stable identity for each node from the path
//! that leads to it, keeps one boolean per identity in a store that outlives
//! the frames, and computes from a value and the store the elements of one
//! frame: leaves as labels, containers as a header, an indented body and a
//! closing delimiter.

pub mod delimiters;
pub mod element;
pub mod identity;
pub mod render;
pub mod store;
pub mod text;
pub mod tree;
pub mod value;

pub use delimiters::Delimiters;
pub use element::{Child, Closing, Element, Indent};
pub use identity::generate_id;
pub use store::ExpandStore;
pub use tree::JsonTree;
pub use value::{is_expandable, Number, Value};
