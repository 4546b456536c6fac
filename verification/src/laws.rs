//! What the library promises as a whole, in terms of what is stored and what is written.
//!
//! The contracts of the functions speak of what each step gives. The laws here tie the first step to
//! the last: the bytes of a buffer to a vertex, a key of a tree to a field, a field to a member of the
//! document.

pub mod buffers;
pub mod documents;
pub mod entities;
pub mod materials;
pub mod meshes;
pub mod reports;
pub mod scenes;
pub mod streams;
pub mod summaries;
pub mod surfaces;
pub mod texts;
pub mod textures;
pub mod trees;
pub mod vertices;
pub mod views;
pub mod worlds;
