//! Loading of a triangle mesh and its surface material from a pair of text
//! files: a geometry description and a material library.
//!
//! The crate never touches a file system or a graphics context. Every
//! function works on bytes already read and on pixels already decoded, and
//! says in its contract what it returns.
//!
//! - `text` cuts bytes into lines and fields.
//! - `number` says which fields are numbers and which are indices.
//! - `record` holds the triples and pairs that a line of numbers writes.
//! - `vertex_gen` resolves the text of a geometry file into vertices.
//! - `material_gen` resolves one material of a library.
//! - `texture` prepares decoded pixels for the texture uploader.
//! - `loader` runs a whole load, one action of the caller after the other.
//! - `error` names the ways in which a load fails.

pub mod error;
pub mod loader;
pub mod material_gen;
pub mod number;
pub mod record;
pub mod text;
pub mod texture;
pub mod vertex_gen;
