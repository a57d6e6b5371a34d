//! Kinds of GL objects, and the binding bookkeeping that every kind shares:
//! which object is bound, and which one a live binding has locked.
use vstd::prelude::*;
use crate::glenum::GLenum;
use crate::glenum as gl;

verus! {

/// A kind of GL buffer, by its binding target.
pub trait Buffer {
    const TYPE: GLenum;
}

/// Vertex attribute buffers.
#[derive(Clone, Copy, Debug, PartialEq, Eq, Default)]
pub struct Attribute;

/// Element index buffers.
#[derive(Clone, Copy, Debug, PartialEq, Eq, Default)]
pub struct Index;

/// Uniform buffers.
#[derive(Clone, Copy, Debug, PartialEq, Eq, Default)]
pub struct Uniform;

/// Shader storage buffers.
#[derive(Clone, Copy, Debug, PartialEq, Eq, Default)]
pub struct ShdStorage;

impl Buffer for Attribute {
    const TYPE: GLenum = gl::ARRAY_BUFFER;
}

impl Buffer for Index {
    const TYPE: GLenum = gl::ELEMENT_ARRAY_BUFFER;
}

impl Buffer for Uniform {
    const TYPE: GLenum = gl::UNIFORM_BUFFER;
}

impl Buffer for ShdStorage {
    const TYPE: GLenum = gl::SHADER_STORAGE_BUFFER;
}

/// Linked shader programs.
#[derive(Clone, Copy, Debug, PartialEq, Eq, Default)]
pub struct ShaderT;

/// Vertex array objects.
#[derive(Clone, Copy, Debug, PartialEq, Eq, Default)]
pub struct VertArrT;

/// Query objects.
#[derive(Clone, Copy, Debug, PartialEq, Eq, Default)]
pub struct QueryT;

/// Framebuffers.
#[derive(Clone, Copy, Debug, PartialEq, Eq, Default)]
pub struct FramebuffT;

/// Renderbuffers.
#[derive(Clone, Copy, Debug, PartialEq, Eq, Default)]
pub struct RenderbuffT;

/// Sampler objects.
#[derive(Clone, Copy, Debug, PartialEq, Eq, Default)]
pub struct SamplerT;

/// Textures of texture type `T`.
#[derive(Debug)]
pub struct TextureT<T> {
    pub t: core::marker::PhantomData<T>,
}

/// Binding bookkeeping of one kind of GL object in one context: the object
/// bound now, and the object that a live binding guard has locked (0 when none).
#[derive(Clone, Copy, Debug, PartialEq, Eq, Default)]
pub struct BindState {
    pub bound: u32,
    pub locked: u32,
}

/// `b` is `a` after binding `obj`, and `call` says whether GL had to be called.
pub open spec fn bind_post(a: BindState, obj: u32, b: BindState, call: bool) -> bool {
    &&& call == (a.bound != obj)
    &&& b.bound == obj
    &&& b.locked == a.locked
}

/// `b` is `a` after deleting object `obj`.
pub open spec fn drop_post(a: BindState, obj: u32, b: BindState) -> bool {
    &&& b.bound == (if a.bound == obj { 0 } else { a.bound })
    &&& b.locked == a.locked
}

impl BindState {
    /// Nothing bound, nothing locked.
    pub fn new() -> (s: Self)
        ensures
            s.bound == 0,
            s.locked == 0,
    {
        BindState { bound: 0, locked: 0 }
    }

    /// Marks `obj` as used by a binding guard; no other guard may be live.
    pub fn Lock(&mut self, obj: u32)
        requires
            old(self).locked == 0,
        ensures
            final(self).locked == obj,
            final(self).bound == old(self).bound,
    {
        self.locked = obj;
    }

    /// Ends the live binding guard.
    pub fn Unlock(&mut self)
        ensures
            final(self).locked == 0,
            final(self).bound == old(self).bound,
    {
        self.locked = 0;
    }

    /// Makes `obj` the bound object; returns whether the GL bind call has to
    /// be made, that is whether another object was bound.
    pub fn Bind(&mut self, obj: u32) -> (call: bool)
        ensures
            bind_post(*old(self), obj, *final(self), call),
    {
        if self.bound != obj {
            self.bound = obj;
            true
        } else {
            false
        }
    }

    /// Forgets object `obj`, which is being deleted; it must not be 0.
    pub fn Drop(&mut self, obj: u32)
        requires
            obj != 0,
        ensures
            drop_post(*old(self), obj, *final(self)),
    {
        if self.bound == obj {
            self.bound = 0;
        }
    }
}

/// Law: binding the same object twice in a row makes one GL call at most,
/// and the second bind changes nothing.
pub proof fn law_bind_twice(s0: BindState, s1: BindState, s2: BindState, obj: u32, c1: bool, c2: bool)
    requires
        bind_post(s0, obj, s1, c1),
        bind_post(s1, obj, s2, c2),
    ensures
        !c2,
        s2 == s1,
{
}

/// Law: once the bound object is deleted, the next bind of any object other
/// than 0 makes the GL call.
pub proof fn law_drop_then_bind(s0: BindState, s1: BindState, s2: BindState, obj: u32, other: u32, c: bool)
    requires
        obj != 0,
        other != 0,
        s0.bound == obj,
        drop_post(s0, obj, s1),
        bind_post(s1, other, s2, c),
    ensures
        c,
{
}

} // verus!
