#![allow(non_camel_case_types, non_snake_case)]
//! State tracking and bookkeeping for a thin OpenGL toolkit: texture-unit and
//! buffer-binding allocation, cached pipeline switches, texture geometry,
//! buffer range arithmetic, shader-source splitting and input-modifier flags.
use vstd::prelude::*;

pub mod Screen;
pub mod Skybox;
pub mod buffer;
pub mod compiler;
pub mod debug;
pub mod event;
pub mod format;
pub mod funcs;
pub mod glenum;
pub mod includes;
pub mod manager;
pub mod mesh;
pub mod parsing;
pub mod policy;
pub mod sampler;
pub mod shader_obj;
pub mod tex_state;
pub mod text;
pub mod texture;
pub mod uniform;
pub mod uniform_state;
pub mod vao;

verus! {
} // verus!
