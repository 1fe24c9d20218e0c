//! Texture-array layer allocation and per-face texture binding for cube
//! block meshes.
//!
//! A [`texture_manager::TextureManager`] hands out dense layer indices of one
//! array texture to texture names, and [`block_type::BlockType::new`] writes
//! those indices into the texture coordinates of a cube mesh, face group by
//! face group. [`laws`] states what holds of both for all inputs.
//!
//! The library reads no file and talks to no GPU: it is told how loading a
//! texture's pixels went, and says which layer the texture gets.

pub mod block_type;
pub mod face_group;
pub mod laws;
pub mod mesh;
pub mod pixels;
pub mod texture_manager;
