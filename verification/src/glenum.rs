//! OpenGL enumerants used by the toolkit, with their values from the
//! OpenGL registry.
use vstd::prelude::*;

verus! {

/// An OpenGL enumerant.
pub type GLenum = u32;

pub const RED: GLenum = 0x1903;
pub const RG: GLenum = 0x8227;
pub const RGB: GLenum = 0x1907;
pub const RGBA: GLenum = 0x1908;
pub const BYTE: GLenum = 0x1400;
pub const UNSIGNED_BYTE: GLenum = 0x1401;
pub const SHORT: GLenum = 0x1402;
pub const UNSIGNED_SHORT: GLenum = 0x1403;
pub const INT: GLenum = 0x1404;
pub const UNSIGNED_INT: GLenum = 0x1405;
pub const HALF_FLOAT: GLenum = 0x140B;
pub const FLOAT: GLenum = 0x1406;
pub const DOUBLE: GLenum = 0x140A;
pub const R8I: GLenum = 0x8231;
pub const R8UI: GLenum = 0x8232;
pub const R16I: GLenum = 0x8233;
pub const R16UI: GLenum = 0x8234;
pub const R32I: GLenum = 0x8235;
pub const R32UI: GLenum = 0x8236;
pub const R16F: GLenum = 0x822D;
pub const R32F: GLenum = 0x822E;
pub const RG8I: GLenum = 0x8237;
pub const RG8UI: GLenum = 0x8238;
pub const RG16I: GLenum = 0x8239;
pub const RG16UI: GLenum = 0x823A;
pub const RG32I: GLenum = 0x823B;
pub const RG32UI: GLenum = 0x823C;
pub const RG16F: GLenum = 0x822F;
pub const RG32F: GLenum = 0x8230;
pub const RGB8I: GLenum = 0x8D8F;
pub const RGB8UI: GLenum = 0x8D7D;
pub const RGB16I: GLenum = 0x8D89;
pub const RGB16UI: GLenum = 0x8D77;
pub const RGB32I: GLenum = 0x8D83;
pub const RGB32UI: GLenum = 0x8D71;
pub const RGB16F: GLenum = 0x881B;
pub const RGB32F: GLenum = 0x8815;
pub const RGBA8I: GLenum = 0x8D8E;
pub const RGBA8UI: GLenum = 0x8D7C;
pub const RGBA16I: GLenum = 0x8D88;
pub const RGBA16UI: GLenum = 0x8D76;
pub const RGBA32I: GLenum = 0x8D82;
pub const RGBA32UI: GLenum = 0x8D70;
pub const RGBA16F: GLenum = 0x881A;
pub const RGBA32F: GLenum = 0x8814;
pub const R8: GLenum = 0x8229;
pub const R16: GLenum = 0x822A;
pub const RG8: GLenum = 0x822B;
pub const RG16: GLenum = 0x822C;
pub const RGB8: GLenum = 0x8051;
pub const RGB16: GLenum = 0x8054;
pub const RGBA8: GLenum = 0x8058;
pub const RGBA16: GLenum = 0x805B;
pub const TEXTURE_1D: GLenum = 0x0DE0;
pub const TEXTURE_2D: GLenum = 0x0DE1;
pub const TEXTURE_3D: GLenum = 0x806F;
pub const TEXTURE_1D_ARRAY: GLenum = 0x8C18;
pub const TEXTURE_2D_ARRAY: GLenum = 0x8C1A;
pub const TEXTURE_CUBE_MAP: GLenum = 0x8513;
pub const TEXTURE_CUBE_MAP_ARRAY: GLenum = 0x9009;
pub const TEXTURE_BUFFER: GLenum = 0x8C2A;
pub const TEXTURE_2D_MULTISAMPLE: GLenum = 0x9100;
pub const TEXTURE_2D_MULTISAMPLE_ARRAY: GLenum = 0x9102;
pub const ARRAY_BUFFER: GLenum = 0x8892;
pub const ELEMENT_ARRAY_BUFFER: GLenum = 0x8893;
pub const UNIFORM_BUFFER: GLenum = 0x8A11;
pub const SHADER_STORAGE_BUFFER: GLenum = 0x90D2;
pub const TRIANGLES: GLenum = 0x0004;
pub const TRIANGLE_STRIP: GLenum = 0x0005;
pub const MAP_READ_BIT: GLenum = 0x0001;
pub const MAP_WRITE_BIT: GLenum = 0x0002;
pub const DYNAMIC_STORAGE_BIT: GLenum = 0x0100;
pub const DEPTH_TEST: GLenum = 0x0B71;
pub const BLEND: GLenum = 0x0BE2;
pub const CULL_FACE: GLenum = 0x0B44;
pub const MULTISAMPLE: GLenum = 0x809D;
pub const DEBUG_OUTPUT: GLenum = 0x92E0;
pub const DEBUG_OUTPUT_SYNCHRONOUS: GLenum = 0x8242;
pub const TEXTURE_CUBE_MAP_SEAMLESS: GLenum = 0x884F;
pub const PROGRAM_POINT_SIZE: GLenum = 0x8642;
pub const SAMPLE_SHADING: GLenum = 0x8C36;
pub const DEPTH_WRITEMASK: GLenum = 0x0B72;
pub const INVALID_INDEX: GLenum = 0xFFFFFFFF;
pub const DEBUG_SEVERITY_HIGH: GLenum = 0x9146;
pub const DEBUG_SEVERITY_MEDIUM: GLenum = 0x9147;
pub const DEBUG_SEVERITY_LOW: GLenum = 0x9148;
pub const DEBUG_SEVERITY_NOTIFICATION: GLenum = 0x826B;
pub const DEBUG_SOURCE_API: GLenum = 0x8246;
pub const DEBUG_SOURCE_WINDOW_SYSTEM: GLenum = 0x8247;
pub const DEBUG_SOURCE_SHADER_COMPILER: GLenum = 0x8248;
pub const DEBUG_SOURCE_THIRD_PARTY: GLenum = 0x8249;
pub const DEBUG_SOURCE_APPLICATION: GLenum = 0x824A;
pub const DEBUG_SOURCE_OTHER: GLenum = 0x824B;
pub const DEBUG_TYPE_ERROR: GLenum = 0x824C;
pub const DEBUG_TYPE_DEPRECATED_BEHAVIOR: GLenum = 0x824D;
pub const DEBUG_TYPE_UNDEFINED_BEHAVIOR: GLenum = 0x824E;
pub const DEBUG_TYPE_PORTABILITY: GLenum = 0x824F;
pub const DEBUG_TYPE_PERFORMANCE: GLenum = 0x8250;
pub const DEBUG_TYPE_MARKER: GLenum = 0x8268;
pub const DEBUG_TYPE_PUSH_GROUP: GLenum = 0x8269;
pub const DEBUG_TYPE_POP_GROUP: GLenum = 0x826A;
pub const DEBUG_TYPE_OTHER: GLenum = 0x8251;
pub const VERTEX_SHADER: GLenum = 0x8B31;
pub const FRAGMENT_SHADER: GLenum = 0x8B30;
pub const GEOMETRY_SHADER: GLenum = 0x8DD9;
pub const COMPUTE_SHADER: GLenum = 0x91B9;
pub const TESS_CONTROL_SHADER: GLenum = 0x8E88;
pub const TESS_EVALUATION_SHADER: GLenum = 0x8E87;
pub const COLOR_ATTACHMENT0: GLenum = 0x8CE0;
pub const DEPTH_ATTACHMENT: GLenum = 0x8D00;
pub const DEPTH_COMPONENT: GLenum = 0x1902;
pub const DEPTH_COMPONENT16: GLenum = 0x81A5;
pub const DEPTH_COMPONENT24: GLenum = 0x81A6;
pub const DEPTH_COMPONENT32F: GLenum = 0x8CAC;

} // verus!
