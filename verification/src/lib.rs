//! Serde-style serialization into KDL documents.
//!
//! A value is first serialized into a [`value::Value`] tree (the steps are in
//! [`serializer`]), and the tree is then laid out as a `kdl` document (in
//! [`ser`]): struct fields become nodes, nested structs become children
//! blocks, sequences of primitives become multiple arguments, sequences of
//! structs become repeated nodes, and other sequences become `-` children.
//! [`laws`] holds what is proved of the layout as a whole.

pub mod bool_defaults;
pub mod error;
pub mod escape;
pub mod kdl_bridge;
pub mod laws;
pub mod ser;
pub mod serializer;
pub mod text;
pub mod value;

pub use error::Error;
pub use ser::{to_doc, to_string, to_string_pretty};
pub use value::Value;
