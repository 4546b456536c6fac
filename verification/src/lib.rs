//! Render data of Source 2 maps.
//!
//! Meshes and models: vertex and index buffers in their binary and their key-value form,
//! decompression, typed vertex attributes, draw calls, and levels of detail. Maps: worlds, world
//! nodes, entities, materials, lightmaps, probe volumes, the sky and the skybox. And what an export
//! makes of them: a glTF document with compressed streams, a catalog of textures, and a report.
//!
//! Every function states what it gives for every input that it takes. A number in floating point is
//! held as its bits: the library moves, compares and clamps such numbers, and leaves arithmetic on
//! them to its callers, as it does reading archives and writing files.

pub mod attributes;
pub mod bits;
pub mod buffer;
pub mod bytes;
pub mod cables;
pub mod codec;
pub mod entity;
pub mod environment;
pub mod error;
pub mod export;
pub mod format;
pub mod geometry;
pub mod gltf;
pub mod gltf_material;
pub mod json;
pub mod kv;
pub mod laws;
pub mod lightmaps;
pub mod lumps;
pub mod material;
pub mod mesh;
pub mod model;
pub mod native_texture;
pub mod order;
pub mod place;
pub mod probes;
pub mod reader;
pub mod report;
pub mod skybox;
pub mod source;
pub mod summary;
pub mod table;
pub mod text;
pub mod texture;
pub mod world;

pub use attributes::{FloatAttribute, Normal};
pub use buffer::{Buffer, Compression, InputLayoutField};
pub use error::MeshError;
pub use format::DxgiFormat;
pub use mesh::{
    decode_mesh_resource, decode_scene_objects, DrawCall, DrawCallFlags, Mesh, SceneObject,
};
pub use model::{decode_model, EmbeddedMesh, LodInfo, MaterialGroup, Model, RefMesh};
