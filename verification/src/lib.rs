//! A recorder of graphics commands for an OpenGL ES backend of WebGPU.
pub mod bind;
pub mod bind_laws;
pub mod bits;
pub mod collect;
pub mod command;
pub mod draw;
pub mod draw_laws;
pub mod effect;
pub mod encoder;
pub mod flags;
pub mod floats;
pub mod gl;
pub mod groups;
pub mod laws;
pub mod lists;
pub mod pass;
pub mod pass_laws;
pub mod pipeline;
pub mod pipeline_laws;
pub mod state;
pub mod sync;
pub mod transfer;
pub mod transfer_laws;
pub mod types;
pub mod value_laws;
pub mod webgpu;
