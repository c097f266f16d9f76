//! Shader reflection, binary shader loading, texture and buffer rules,
//! resource caches and layout computations of a wgpu-based rendering library.

pub mod shader_types;
pub mod binary_shader;
pub mod reflection;
pub mod bind_layout;
pub mod graphics;
pub mod texture_types;
pub mod texture;
pub mod buffer;
pub mod cache;
pub mod gpu;
pub mod atlas;
pub mod font;
pub mod attachment;
pub mod pipeline;
pub mod pass;
pub mod drawing;
pub mod wgsl;
pub mod font_cache;
