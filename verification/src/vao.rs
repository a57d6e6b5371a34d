//! Vertex array objects: attribute formats, the buffers bound to each
//! attribute slot, and byte offsets of indexed draws.
use vstd::prelude::*;
use vstd::layout::size_of;
use crate::buffer::{AttrType, IdxType};
use crate::glenum::GLenum;

verus! {

/// A vertex array object and the buffers it reads: one per attribute slot
/// (`u32::MAX` for a slot never set, 0 for a deleted buffer) and the index
/// buffer.
#[derive(Debug)]
pub struct Vao<I> {
    pub obj: u32,
    pub attrs: Vec<u32>,
    pub idxs: Option<u32>,
    pub i: core::marker::PhantomData<I>,
}

/// Parameters of `glVertexAttribPointer` for one attribute slot.
#[derive(Clone, Copy, Debug, PartialEq, Eq)]
pub struct AttribFormat {
    pub vao: u32,
    pub buf: u32,
    pub idx: u32,
    pub size: u32,
    pub typ: GLenum,
    pub normalized: bool,
    pub stride: u32,
    pub offset_bytes: u32,
}

/// Slots after setting slot `idx` to buffer `buf`: grown with `u32::MAX` up
/// to `idx`, then `idx` set.
pub open spec fn set_slot(attrs: Seq<u32>, idx: int, buf: u32) -> Seq<u32> {
    let grown = if attrs.len() < idx + 1 {
        attrs + Seq::new((idx + 1 - attrs.len()) as nat, |i: int| u32::MAX)
    } else {
        attrs
    };
    grown.update(idx, buf)
}

impl<I> Vao<I> {
    /// A vertex array object by its name, with no buffers yet.
    pub fn new(obj: u32) -> (v: Self)
        ensures
            v.obj == obj,
            v.attrs@ == Seq::<u32>::empty(),
            v.idxs is None,
    {
        Vao { obj, attrs: Vec::new(), idxs: None, i: core::marker::PhantomData }
    }

    pub fn obj(&self) -> (r: u32)
        ensures
            r == self.obj,
    {
        self.obj
    }

    /// Makes `buf` the index buffer.
    pub fn BindIdxs(&mut self, buf: u32)
        ensures
            final(self).idxs == Some(buf),
            final(self).attrs@ == old(self).attrs@,
            final(self).obj == old(self).obj,
    {
        self.idxs = Some(buf);
    }

    /// Reads attribute slot `idx` from buffer `buf`, elements of type `A`
    /// in groups of `size` (1 to 4), `stride` apart, starting at element
    /// `offset`; returns the parameters of the GL call.
    pub fn AttribFmt<A: AttrType>(&mut self, buf: u32, idx: u32, size: u32, norm: bool, stride: u32, offset: u32) -> (r: AttribFormat)
        requires
            0 < size < 5,
            offset * size_of::<A>() <= u32::MAX,
            idx < u32::MAX,
        ensures
            r == (AttribFormat {
                vao: old(self).obj,
                buf,
                idx,
                size,
                typ: A::attr_type(),
                normalized: norm,
                stride,
                offset_bytes: (offset * size_of::<A>()) as u32,
            }),
            final(self).attrs@ == set_slot(old(self).attrs@, idx as int, buf),
            final(self).obj == old(self).obj,
            final(self).idxs == old(self).idxs,
    {
        let t_size = core::mem::size_of::<A>();
        let ghost a = self.attrs@;
        let ghost o = self.obj;
        let ghost ix = self.idxs;
        let n = idx as usize + 1;
        if self.attrs.len() < n {
            while self.attrs.len() < n
                invariant
                    a.len() < n,
                    self.obj == o,
                    self.idxs == ix,
                    a.len() <= self.attrs@.len() <= n,
                    self.attrs@ == a + Seq::new((self.attrs@.len() - a.len()) as nat, |i: int| u32::MAX),
                decreases n - self.attrs@.len(),
            {
                self.attrs.push(u32::MAX);
                assert(self.attrs@ =~= a + Seq::new((self.attrs@.len() - a.len()) as nat, |i: int| u32::MAX));
            }
        }
        self.attrs.set(idx as usize, buf);
        assert(self.attrs@ =~= set_slot(a, idx as int, buf));
        let offset_bytes = (offset as usize * t_size) as u32;
        AttribFormat { vao: self.obj, buf, idx, size, typ: A::gl_type(), normalized: norm, stride, offset_bytes }
    }

    /// Forgets buffer `buf`, which is being deleted, in every attribute slot.
    pub fn forget_buffer(&mut self, buf: u32)
        ensures
            final(self).attrs@.len() == old(self).attrs@.len(),
            forall|i: int| 0 <= i < old(self).attrs@.len() ==> #[trigger] final(self).attrs@[i] == (if old(self).attrs@[i] == buf {
                0
            } else {
                old(self).attrs@[i]
            }),
            final(self).idxs == old(self).idxs,
            final(self).obj == old(self).obj,
    {
        let ghost a = self.attrs@;
        let ghost o = self.obj;
        let ghost ix = self.idxs;
        let mut i: usize = 0;
        while i < self.attrs.len()
            invariant
                self.attrs@.len() == a.len(),
                self.obj == o,
                self.idxs == ix,
                i <= a.len(),
                forall|j: int| 0 <= j < i ==> #[trigger] self.attrs@[j] == (if a[j] == buf { 0 } else { a[j] }),
                forall|j: int| i <= j < a.len() ==> #[trigger] self.attrs@[j] == a[j],
            decreases a.len() - i,
        {
            if self.attrs[i] == buf {
                self.attrs.set(i, 0);
            }
            i = i + 1;
        }
    }
}

/// Law: after setting a slot, that slot reads the buffer and every other
/// slot keeps what it had, slots that did not exist reading `u32::MAX`.
pub proof fn law_set_slot(attrs: Seq<u32>, idx: int, buf: u32, j: int)
    requires
        0 <= idx,
        0 <= j,
    ensures
        set_slot(attrs, idx, buf).len() == if attrs.len() < idx + 1 { idx + 1 } else { attrs.len() as int },
        set_slot(attrs, idx, buf)[idx] == buf,
        j != idx && j < attrs.len() ==> set_slot(attrs, idx, buf)[j] == attrs[j],
        j != idx && attrs.len() <= j < idx ==> set_slot(attrs, idx, buf)[j] == u32::MAX,
{
}

/// Byte offset of index `offset` in an index buffer of `I`.
pub fn draw_offset<I: IdxType>(offset: usize) -> (r: usize)
    requires
        offset * size_of::<I>() <= usize::MAX,
    ensures
        r == offset * size_of::<I>(),
{
    offset * core::mem::size_of::<I>()
}

} // verus!
