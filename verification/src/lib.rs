//! rtai: a typed, validated model of KaiTai-style binary format descriptions.
//!
//! A description arrives as a tree of scalars, sequences and mappings
//! ([`Node`]). [`KaiTai::from_node`] turns such a tree into a schema document
//! or reports why it cannot, and [`KaiTai::to_node`] writes a document back as
//! a tree of the same shape. [`KaiTai::from_yaml`] reads the tree from a YAML
//! text first.

pub mod alike;
pub mod decode;
pub mod encode;
pub mod error;
pub mod field;
pub mod grammar;
pub mod labels;
pub mod laws;
pub mod node;
pub mod proofs;
pub mod raw;
pub mod schema;
pub mod table;
pub mod text;
pub mod validate;
pub mod yaml;

pub use alike::Alike;
pub use error::{ErrorKind, PathStep, SchemaError};
pub use field::{Field, KType, KTypeSwitch, Primitive, Repeat};
pub use labels::EnumTable;
pub use node::{Node, Tree};
pub use raw::RawNode;
pub use schema::{Endian, EnumTables, KaiTai, Meta, SeqValue, TypeTable};
