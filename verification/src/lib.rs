//! Generation of Python type-stub (`.pyi`) declarations from structural
//! metadata about a native extension module.
//!
//! The crate is organised around [`type_info::TypeInfo`], the unit of resolved
//! type knowledge: a Python annotation string together with the set of module
//! names that must be imported for the annotation to resolve.  The
//! [`mapping::StubType`] trait maps each representable type family to its
//! `TypeInfo` for input (parameter) and output (return) positions;
//! [`composite`] builds `TypeInfo` for parametrized shapes such as optionals,
//! sequences, mappings and tuples; [`imports`] merges the import requirements
//! of a whole module into one deterministically ordered block; and [`render`]
//! serialises a fully resolved [`description::ModuleDef`] into stub text.

pub mod composite;
pub mod description;
pub mod imports;
pub mod mapping;
pub mod order;
pub mod render;
pub mod type_info;
