//! Pixel channel layouts, component types, and the GL internal formats that
//! textures of each combination are stored in.
use vstd::prelude::*;
use crate::glenum::GLenum;
use crate::glenum as gl;

verus! {

/// Channel layout of a texel: the GL pixel format and the number of channels.
pub trait TexSize {
    const TYPE: GLenum;
    const SIZE: i32;

    /// The GL pixel format, as contracts see it.
    spec fn layout_type() -> GLenum;

    /// The number of channels, as contracts see it.
    spec fn layout_size() -> i32;

    /// The GL pixel format.
    fn gl_type() -> (r: GLenum)
        ensures
            r == Self::layout_type(),
    ;

    /// The number of channels.
    fn channels() -> (r: i32)
        ensures
            r == Self::layout_size(),
    ;
}

/// Component type of a texel, by its GL type.
pub trait TexFmt {
    const TYPE: GLenum;

    /// The GL component type, as contracts see it.
    spec fn component_type() -> GLenum;

    /// The GL component type.
    fn gl_type() -> (r: GLenum)
        ensures
            r == Self::component_type(),
    ;
}

/// One channel.
#[derive(Clone, Copy, Debug, PartialEq, Eq, Default)]
pub struct RED;

/// Two channels.
#[derive(Clone, Copy, Debug, PartialEq, Eq, Default)]
pub struct RG;

/// Three channels.
#[derive(Clone, Copy, Debug, PartialEq, Eq, Default)]
pub struct RGB;

/// Four channels.
#[derive(Clone, Copy, Debug, PartialEq, Eq, Default)]
pub struct RGBA;

impl TexSize for RED {
    const TYPE: GLenum = gl::RED;
    const SIZE: i32 = 1;

    open spec fn layout_type() -> GLenum {
        gl::RED
    }

    open spec fn layout_size() -> i32 {
        1
    }

    fn gl_type() -> (r: GLenum) {
        gl::RED
    }

    fn channels() -> (r: i32) {
        1
    }
}

impl TexSize for RG {
    const TYPE: GLenum = gl::RG;
    const SIZE: i32 = 2;

    open spec fn layout_type() -> GLenum {
        gl::RG
    }

    open spec fn layout_size() -> i32 {
        2
    }

    fn gl_type() -> (r: GLenum) {
        gl::RG
    }

    fn channels() -> (r: i32) {
        2
    }
}

impl TexSize for RGB {
    const TYPE: GLenum = gl::RGB;
    const SIZE: i32 = 3;

    open spec fn layout_type() -> GLenum {
        gl::RGB
    }

    open spec fn layout_size() -> i32 {
        3
    }

    fn gl_type() -> (r: GLenum) {
        gl::RGB
    }

    fn channels() -> (r: i32) {
        3
    }
}

impl TexSize for RGBA {
    const TYPE: GLenum = gl::RGBA;
    const SIZE: i32 = 4;

    open spec fn layout_type() -> GLenum {
        gl::RGBA
    }

    open spec fn layout_size() -> i32 {
        4
    }

    fn gl_type() -> (r: GLenum) {
        gl::RGBA
    }

    fn channels() -> (r: i32) {
        4
    }
}

impl TexFmt for i8 {
    const TYPE: GLenum = gl::BYTE;

    open spec fn component_type() -> GLenum {
        gl::BYTE
    }

    fn gl_type() -> (r: GLenum) {
        gl::BYTE
    }
}

impl TexFmt for u8 {
    const TYPE: GLenum = gl::UNSIGNED_BYTE;

    open spec fn component_type() -> GLenum {
        gl::UNSIGNED_BYTE
    }

    fn gl_type() -> (r: GLenum) {
        gl::UNSIGNED_BYTE
    }
}

impl TexFmt for i16 {
    const TYPE: GLenum = gl::SHORT;

    open spec fn component_type() -> GLenum {
        gl::SHORT
    }

    fn gl_type() -> (r: GLenum) {
        gl::SHORT
    }
}

impl TexFmt for u16 {
    const TYPE: GLenum = gl::UNSIGNED_SHORT;

    open spec fn component_type() -> GLenum {
        gl::UNSIGNED_SHORT
    }

    fn gl_type() -> (r: GLenum) {
        gl::UNSIGNED_SHORT
    }
}

impl TexFmt for i32 {
    const TYPE: GLenum = gl::INT;

    open spec fn component_type() -> GLenum {
        gl::INT
    }

    fn gl_type() -> (r: GLenum) {
        gl::INT
    }
}

impl TexFmt for u32 {
    const TYPE: GLenum = gl::UNSIGNED_INT;

    open spec fn component_type() -> GLenum {
        gl::UNSIGNED_INT
    }

    fn gl_type() -> (r: GLenum) {
        gl::UNSIGNED_INT
    }
}

/// Whether `t` is the GL pixel format of a channel layout.
pub open spec fn is_size_type(t: GLenum) -> bool {
    t == gl::RED || t == gl::RG || t == gl::RGB || t == gl::RGBA
}

/// Whether `t` is the GL type of a texel component.
pub open spec fn is_fmt_type(t: GLenum) -> bool {
    t == gl::BYTE || t == gl::UNSIGNED_BYTE || t == gl::SHORT || t == gl::UNSIGNED_SHORT || t == gl::INT || t == gl::UNSIGNED_INT || t == gl::HALF_FLOAT || t == gl::FLOAT
}

/// Internal format of textures with the given pixel format and component
/// type: signed and unsigned integer formats for integer types, floating
/// point formats for the float types. 0 stands for a pair with none.
pub open spec fn internal_fmt_spec(size_type: GLenum, fmt_type: GLenum) -> GLenum {
    if size_type == gl::RED {
        if fmt_type == gl::BYTE {
            gl::R8I
        } else if fmt_type == gl::UNSIGNED_BYTE {
            gl::R8UI
        } else if fmt_type == gl::SHORT {
            gl::R16I
        } else if fmt_type == gl::UNSIGNED_SHORT {
            gl::R16UI
        } else if fmt_type == gl::INT {
            gl::R32I
        } else if fmt_type == gl::UNSIGNED_INT {
            gl::R32UI
        } else if fmt_type == gl::HALF_FLOAT {
            gl::R16F
        } else if fmt_type == gl::FLOAT {
            gl::R32F
        } else {
            0
        }
    } else if size_type == gl::RG {
        if fmt_type == gl::BYTE {
            gl::RG8I
        } else if fmt_type == gl::UNSIGNED_BYTE {
            gl::RG8UI
        } else if fmt_type == gl::SHORT {
            gl::RG16I
        } else if fmt_type == gl::UNSIGNED_SHORT {
            gl::RG16UI
        } else if fmt_type == gl::INT {
            gl::RG32I
        } else if fmt_type == gl::UNSIGNED_INT {
            gl::RG32UI
        } else if fmt_type == gl::HALF_FLOAT {
            gl::RG16F
        } else if fmt_type == gl::FLOAT {
            gl::RG32F
        } else {
            0
        }
    } else if size_type == gl::RGB {
        if fmt_type == gl::BYTE {
            gl::RGB8I
        } else if fmt_type == gl::UNSIGNED_BYTE {
            gl::RGB8UI
        } else if fmt_type == gl::SHORT {
            gl::RGB16I
        } else if fmt_type == gl::UNSIGNED_SHORT {
            gl::RGB16UI
        } else if fmt_type == gl::INT {
            gl::RGB32I
        } else if fmt_type == gl::UNSIGNED_INT {
            gl::RGB32UI
        } else if fmt_type == gl::HALF_FLOAT {
            gl::RGB16F
        } else if fmt_type == gl::FLOAT {
            gl::RGB32F
        } else {
            0
        }
    } else if size_type == gl::RGBA {
        if fmt_type == gl::BYTE {
            gl::RGBA8I
        } else if fmt_type == gl::UNSIGNED_BYTE {
            gl::RGBA8UI
        } else if fmt_type == gl::SHORT {
            gl::RGBA16I
        } else if fmt_type == gl::UNSIGNED_SHORT {
            gl::RGBA16UI
        } else if fmt_type == gl::INT {
            gl::RGBA32I
        } else if fmt_type == gl::UNSIGNED_INT {
            gl::RGBA32UI
        } else if fmt_type == gl::HALF_FLOAT {
            gl::RGBA16F
        } else if fmt_type == gl::FLOAT {
            gl::RGBA32F
        } else {
            0
        }
    } else {
        0
    }
}

/// Internal format of textures with the given pixel format and component type.
pub fn internal_fmt(size_type: GLenum, fmt_type: GLenum) -> (r: GLenum)
    requires
        is_size_type(size_type),
        is_fmt_type(fmt_type),
    ensures
        r == internal_fmt_spec(size_type, fmt_type),
        r != 0,
{
    if size_type == gl::RED {
        if fmt_type == gl::BYTE {
            gl::R8I
        } else if fmt_type == gl::UNSIGNED_BYTE {
            gl::R8UI
        } else if fmt_type == gl::SHORT {
            gl::R16I
        } else if fmt_type == gl::UNSIGNED_SHORT {
            gl::R16UI
        } else if fmt_type == gl::INT {
            gl::R32I
        } else if fmt_type == gl::UNSIGNED_INT {
            gl::R32UI
        } else if fmt_type == gl::HALF_FLOAT {
            gl::R16F
        } else if fmt_type == gl::FLOAT {
            gl::R32F
        } else {
            0
        }
    } else if size_type == gl::RG {
        if fmt_type == gl::BYTE {
            gl::RG8I
        } else if fmt_type == gl::UNSIGNED_BYTE {
            gl::RG8UI
        } else if fmt_type == gl::SHORT {
            gl::RG16I
        } else if fmt_type == gl::UNSIGNED_SHORT {
            gl::RG16UI
        } else if fmt_type == gl::INT {
            gl::RG32I
        } else if fmt_type == gl::UNSIGNED_INT {
            gl::RG32UI
        } else if fmt_type == gl::HALF_FLOAT {
            gl::RG16F
        } else if fmt_type == gl::FLOAT {
            gl::RG32F
        } else {
            0
        }
    } else if size_type == gl::RGB {
        if fmt_type == gl::BYTE {
            gl::RGB8I
        } else if fmt_type == gl::UNSIGNED_BYTE {
            gl::RGB8UI
        } else if fmt_type == gl::SHORT {
            gl::RGB16I
        } else if fmt_type == gl::UNSIGNED_SHORT {
            gl::RGB16UI
        } else if fmt_type == gl::INT {
            gl::RGB32I
        } else if fmt_type == gl::UNSIGNED_INT {
            gl::RGB32UI
        } else if fmt_type == gl::HALF_FLOAT {
            gl::RGB16F
        } else if fmt_type == gl::FLOAT {
            gl::RGB32F
        } else {
            0
        }
    } else if size_type == gl::RGBA {
        if fmt_type == gl::BYTE {
            gl::RGBA8I
        } else if fmt_type == gl::UNSIGNED_BYTE {
            gl::RGBA8UI
        } else if fmt_type == gl::SHORT {
            gl::RGBA16I
        } else if fmt_type == gl::UNSIGNED_SHORT {
            gl::RGBA16UI
        } else if fmt_type == gl::INT {
            gl::RGBA32I
        } else if fmt_type == gl::UNSIGNED_INT {
            gl::RGBA32UI
        } else if fmt_type == gl::HALF_FLOAT {
            gl::RGBA16F
        } else if fmt_type == gl::FLOAT {
            gl::RGBA32F
        } else {
            0
        }
    } else {
        0
    }
}

/// Internal format of textures whose texels have layout `S` and components `F`.
pub fn get_internal_fmt<S: TexSize, F: TexFmt>() -> (r: GLenum)
    requires
        is_size_type(S::layout_type()),
        is_fmt_type(F::component_type()),
    ensures
        r == internal_fmt_spec(S::layout_type(), F::component_type()),
{
    internal_fmt(S::gl_type(), F::gl_type())
}

/// The normalized format that a signed or unsigned 8- or 16-bit integer
/// format is stored as; other formats are kept.
pub open spec fn normalize_spec(fmt: GLenum) -> GLenum {
    if fmt == gl::R8I || fmt == gl::R8UI {
        gl::R8
    } else if fmt == gl::R16I || fmt == gl::R16UI {
        gl::R16
    } else if fmt == gl::RG8I || fmt == gl::RG8UI {
        gl::RG8
    } else if fmt == gl::RG16I || fmt == gl::RG16UI {
        gl::RG16
    } else if fmt == gl::RGB8I || fmt == gl::RGB8UI {
        gl::RGB8
    } else if fmt == gl::RGB16I || fmt == gl::RGB16UI {
        gl::RGB16
    } else if fmt == gl::RGBA8I || fmt == gl::RGBA8UI {
        gl::RGBA8
    } else if fmt == gl::RGBA16I || fmt == gl::RGBA16UI {
        gl::RGBA16
    } else {
        fmt
    }
}

pub fn normalize_internal_fmt(fmt: GLenum) -> (r: GLenum)
    ensures
        r == normalize_spec(fmt),
{
    if fmt == gl::R8I || fmt == gl::R8UI {
        gl::R8
    } else if fmt == gl::R16I || fmt == gl::R16UI {
        gl::R16
    } else if fmt == gl::RG8I || fmt == gl::RG8UI {
        gl::RG8
    } else if fmt == gl::RG16I || fmt == gl::RG16UI {
        gl::RG16
    } else if fmt == gl::RGB8I || fmt == gl::RGB8UI {
        gl::RGB8
    } else if fmt == gl::RGB16I || fmt == gl::RGB16UI {
        gl::RGB16
    } else if fmt == gl::RGBA8I || fmt == gl::RGBA8UI {
        gl::RGBA8
    } else if fmt == gl::RGBA16I || fmt == gl::RGBA16UI {
        gl::RGBA16
    } else {
        fmt
    }
}

/// The internal format that GL 3.3 storage takes for `fmt`: the sized depth
/// formats become the unsized depth format, others are kept.
pub open spec fn depth_33_spec(fmt: GLenum) -> GLenum {
    if fmt == gl::DEPTH_COMPONENT32F || fmt == gl::DEPTH_COMPONENT24 || fmt == gl::DEPTH_COMPONENT16 {
        gl::DEPTH_COMPONENT
    } else {
        fmt
    }
}

/// The internal format, as GL 3.3 takes it, for storage of format `fmt`.
pub fn formatDepth45to33(fmt: GLenum) -> (r: i32)
    requires
        depth_33_spec(fmt) <= i32::MAX,
    ensures
        r == depth_33_spec(fmt),
{
    let f = if fmt == gl::DEPTH_COMPONENT32F || fmt == gl::DEPTH_COMPONENT24 || fmt == gl::DEPTH_COMPONENT16 {
        gl::DEPTH_COMPONENT
    } else {
        fmt
    };
    f as i32
}

/// How the components of an internal format are stored and read.
#[derive(Clone, Copy, Debug, PartialEq, Eq)]
pub enum CompKind {
    Signed,
    Unsigned,
    Float,
    Normalized,
}

/// The shape of a sized color internal format: number of channels, bits per
/// component, and how components are read.
pub struct FmtDesc {
    pub channels: int,
    pub bits: int,
    pub kind: CompKind,
}

/// What GL documents of each sized color internal format; `None` for any
/// other value.
pub open spec fn fmt_desc(f: GLenum) -> Option<FmtDesc> {
    if f == gl::R8I {
        Some(FmtDesc { channels: 1, bits: 8, kind: CompKind::Signed })
    } else if f == gl::R8UI {
        Some(FmtDesc { channels: 1, bits: 8, kind: CompKind::Unsigned })
    } else if f == gl::R16I {
        Some(FmtDesc { channels: 1, bits: 16, kind: CompKind::Signed })
    } else if f == gl::R16UI {
        Some(FmtDesc { channels: 1, bits: 16, kind: CompKind::Unsigned })
    } else if f == gl::R32I {
        Some(FmtDesc { channels: 1, bits: 32, kind: CompKind::Signed })
    } else if f == gl::R32UI {
        Some(FmtDesc { channels: 1, bits: 32, kind: CompKind::Unsigned })
    } else if f == gl::R16F {
        Some(FmtDesc { channels: 1, bits: 16, kind: CompKind::Float })
    } else if f == gl::R32F {
        Some(FmtDesc { channels: 1, bits: 32, kind: CompKind::Float })
    } else if f == gl::R8 {
        Some(FmtDesc { channels: 1, bits: 8, kind: CompKind::Normalized })
    } else if f == gl::R16 {
        Some(FmtDesc { channels: 1, bits: 16, kind: CompKind::Normalized })
    } else if f == gl::RG8I {
        Some(FmtDesc { channels: 2, bits: 8, kind: CompKind::Signed })
    } else if f == gl::RG8UI {
        Some(FmtDesc { channels: 2, bits: 8, kind: CompKind::Unsigned })
    } else if f == gl::RG16I {
        Some(FmtDesc { channels: 2, bits: 16, kind: CompKind::Signed })
    } else if f == gl::RG16UI {
        Some(FmtDesc { channels: 2, bits: 16, kind: CompKind::Unsigned })
    } else if f == gl::RG32I {
        Some(FmtDesc { channels: 2, bits: 32, kind: CompKind::Signed })
    } else if f == gl::RG32UI {
        Some(FmtDesc { channels: 2, bits: 32, kind: CompKind::Unsigned })
    } else if f == gl::RG16F {
        Some(FmtDesc { channels: 2, bits: 16, kind: CompKind::Float })
    } else if f == gl::RG32F {
        Some(FmtDesc { channels: 2, bits: 32, kind: CompKind::Float })
    } else if f == gl::RG8 {
        Some(FmtDesc { channels: 2, bits: 8, kind: CompKind::Normalized })
    } else if f == gl::RG16 {
        Some(FmtDesc { channels: 2, bits: 16, kind: CompKind::Normalized })
    } else if f == gl::RGB8I {
        Some(FmtDesc { channels: 3, bits: 8, kind: CompKind::Signed })
    } else if f == gl::RGB8UI {
        Some(FmtDesc { channels: 3, bits: 8, kind: CompKind::Unsigned })
    } else if f == gl::RGB16I {
        Some(FmtDesc { channels: 3, bits: 16, kind: CompKind::Signed })
    } else if f == gl::RGB16UI {
        Some(FmtDesc { channels: 3, bits: 16, kind: CompKind::Unsigned })
    } else if f == gl::RGB32I {
        Some(FmtDesc { channels: 3, bits: 32, kind: CompKind::Signed })
    } else if f == gl::RGB32UI {
        Some(FmtDesc { channels: 3, bits: 32, kind: CompKind::Unsigned })
    } else if f == gl::RGB16F {
        Some(FmtDesc { channels: 3, bits: 16, kind: CompKind::Float })
    } else if f == gl::RGB32F {
        Some(FmtDesc { channels: 3, bits: 32, kind: CompKind::Float })
    } else if f == gl::RGB8 {
        Some(FmtDesc { channels: 3, bits: 8, kind: CompKind::Normalized })
    } else if f == gl::RGB16 {
        Some(FmtDesc { channels: 3, bits: 16, kind: CompKind::Normalized })
    } else if f == gl::RGBA8I {
        Some(FmtDesc { channels: 4, bits: 8, kind: CompKind::Signed })
    } else if f == gl::RGBA8UI {
        Some(FmtDesc { channels: 4, bits: 8, kind: CompKind::Unsigned })
    } else if f == gl::RGBA16I {
        Some(FmtDesc { channels: 4, bits: 16, kind: CompKind::Signed })
    } else if f == gl::RGBA16UI {
        Some(FmtDesc { channels: 4, bits: 16, kind: CompKind::Unsigned })
    } else if f == gl::RGBA32I {
        Some(FmtDesc { channels: 4, bits: 32, kind: CompKind::Signed })
    } else if f == gl::RGBA32UI {
        Some(FmtDesc { channels: 4, bits: 32, kind: CompKind::Unsigned })
    } else if f == gl::RGBA16F {
        Some(FmtDesc { channels: 4, bits: 16, kind: CompKind::Float })
    } else if f == gl::RGBA32F {
        Some(FmtDesc { channels: 4, bits: 32, kind: CompKind::Float })
    } else if f == gl::RGBA8 {
        Some(FmtDesc { channels: 4, bits: 8, kind: CompKind::Normalized })
    } else if f == gl::RGBA16 {
        Some(FmtDesc { channels: 4, bits: 16, kind: CompKind::Normalized })
    } else {
        None
    }
}

/// Number of channels of a pixel format.
pub open spec fn layout_channels(s: GLenum) -> int {
    if s == gl::RED {
        1
    } else if s == gl::RG {
        2
    } else if s == gl::RGB {
        3
    } else {
        4
    }
}

/// Bits and kind of a texel component type.
pub open spec fn type_desc(t: GLenum) -> (int, CompKind) {
    if t == gl::BYTE {
        (8, CompKind::Signed)
    } else if t == gl::UNSIGNED_BYTE {
        (8, CompKind::Unsigned)
    } else if t == gl::SHORT {
        (16, CompKind::Signed)
    } else if t == gl::UNSIGNED_SHORT {
        (16, CompKind::Unsigned)
    } else if t == gl::INT {
        (32, CompKind::Signed)
    } else if t == gl::UNSIGNED_INT {
        (32, CompKind::Unsigned)
    } else if t == gl::HALF_FLOAT {
        (16, CompKind::Float)
    } else {
        (32, CompKind::Float)
    }
}

/// Law: the internal format of a (layout, component type) pair has the
/// layout's number of channels, and components of the type's size and kind.
pub proof fn law_internal_fmt_shape(s: GLenum, f: GLenum)
    requires
        is_size_type(s),
        is_fmt_type(f),
    ensures
        fmt_desc(internal_fmt_spec(s, f)) == Some(FmtDesc { channels: layout_channels(s), bits: type_desc(f).0, kind: type_desc(f).1 }),
{
}

/// Law: normalization turns a signed or unsigned integer format of 8 or 16
/// bits into the normalized format of the same channels and size, and keeps
/// every other format.
pub proof fn law_normalize_shape(f: GLenum)
    ensures
        match fmt_desc(f) {
            Some(d) => if (d.kind == CompKind::Signed || d.kind == CompKind::Unsigned) && d.bits <= 16 {
                fmt_desc(normalize_spec(f)) == Some(FmtDesc { channels: d.channels, bits: d.bits, kind: CompKind::Normalized })
            } else {
                normalize_spec(f) == f
            },
            None => normalize_spec(f) == f,
        },
{
}

/// Law: normalizing a format twice is the same as normalizing it once.
pub proof fn law_normalize_idempotent(fmt: GLenum)
    ensures
        normalize_spec(normalize_spec(fmt)) == normalize_spec(fmt),
{
}

/// Law: different (layout, component type) pairs are stored in different
/// internal formats.
pub proof fn law_internal_fmt_injective(s1: GLenum, f1: GLenum, s2: GLenum, f2: GLenum)
    requires
        is_size_type(s1),
        is_fmt_type(f1),
        is_size_type(s2),
        is_fmt_type(f2),
        internal_fmt_spec(s1, f1) == internal_fmt_spec(s2, f2),
    ensures
        s1 == s2,
        f1 == f2,
{
}

/// Law: normalization keeps the number of channels and the component size:
/// a signed and an unsigned format of the same layout and size, and only
/// those, meet.
pub proof fn law_normalize_pairs(s: GLenum, f1: GLenum, f2: GLenum)
    requires
        is_size_type(s),
        is_fmt_type(f1),
        is_fmt_type(f2),
        f1 != f2,
        normalize_spec(internal_fmt_spec(s, f1)) == normalize_spec(internal_fmt_spec(s, f2)),
    ensures
        (f1 == gl::BYTE && f2 == gl::UNSIGNED_BYTE) || (f1 == gl::UNSIGNED_BYTE && f2 == gl::BYTE)
            || (f1 == gl::SHORT && f2 == gl::UNSIGNED_SHORT) || (f1 == gl::UNSIGNED_SHORT && f2 == gl::SHORT),
{
}

} // verus!
