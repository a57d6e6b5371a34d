//! GL buffers of typed elements: byte ranges of updates and mappings, and
//! binding of uniform and shader-storage buffers to indexed locations.
use vstd::prelude::*;
use vstd::layout::size_of;
use crate::glenum::GLenum;
use crate::glenum as gl;
use crate::policy::{ShdStorage, Uniform};
use crate::uniform_state::{UniformState, LocBind, LocSet, loc_bind_post, bind_location_post, loc_target};

verus! {

/// Element types of index buffers, by their GL type.
pub trait IdxType {
    const TYPE: GLenum;
}

/// Element types of vertex attribute buffers, by their GL type.
pub trait AttrType {
    const TYPE: GLenum;

    /// The GL component type, as contracts see it.
    spec fn attr_type() -> GLenum;

    /// The GL component type.
    fn gl_type() -> (r: GLenum)
        ensures
            r == Self::attr_type(),
    ;
}

impl IdxType for u8 {
    const TYPE: GLenum = gl::UNSIGNED_BYTE;
}

impl IdxType for u16 {
    const TYPE: GLenum = gl::UNSIGNED_SHORT;
}

impl IdxType for u32 {
    const TYPE: GLenum = gl::UNSIGNED_INT;
}

impl AttrType for i8 {
    const TYPE: GLenum = gl::BYTE;

    open spec fn attr_type() -> GLenum {
        gl::BYTE
    }

    fn gl_type() -> (r: GLenum) {
        gl::BYTE
    }
}

impl AttrType for u8 {
    const TYPE: GLenum = gl::UNSIGNED_BYTE;

    open spec fn attr_type() -> GLenum {
        gl::UNSIGNED_BYTE
    }

    fn gl_type() -> (r: GLenum) {
        gl::UNSIGNED_BYTE
    }
}

impl AttrType for i16 {
    const TYPE: GLenum = gl::SHORT;

    open spec fn attr_type() -> GLenum {
        gl::SHORT
    }

    fn gl_type() -> (r: GLenum) {
        gl::SHORT
    }
}

impl AttrType for u16 {
    const TYPE: GLenum = gl::UNSIGNED_SHORT;

    open spec fn attr_type() -> GLenum {
        gl::UNSIGNED_SHORT
    }

    fn gl_type() -> (r: GLenum) {
        gl::UNSIGNED_SHORT
    }
}

impl AttrType for i32 {
    const TYPE: GLenum = gl::INT;

    open spec fn attr_type() -> GLenum {
        gl::INT
    }

    fn gl_type() -> (r: GLenum) {
        gl::INT
    }
}

impl AttrType for u32 {
    const TYPE: GLenum = gl::UNSIGNED_INT;

    open spec fn attr_type() -> GLenum {
        gl::UNSIGNED_INT
    }

    fn gl_type() -> (r: GLenum) {
        gl::UNSIGNED_INT
    }
}

/// A GL object of kind `T`, by its name.
#[derive(Debug)]
pub struct Obj<T> {
    pub obj: u32,
    pub t: core::marker::PhantomData<T>,
}

impl<T> Obj<T> {
    /// Wraps the name of a freshly created object.
    pub fn new(obj: u32) -> (o: Self)
        ensures
            o.obj == obj,
    {
        Obj { obj, t: core::marker::PhantomData }
    }
}

/// A GL buffer of kind `T` holding `len` elements of type `D`.
#[derive(Debug)]
pub struct ArrObj<T, D> {
    pub obj: u32,
    pub len: usize,
    pub t: core::marker::PhantomData<(T, D)>,
}

/// Buffers whose storage a geometry keeps alive.
pub trait ArrObjLease {}

impl<T, D> ArrObjLease for ArrObj<T, D> {}

impl ArrObjLease for () {}

impl<T, D> ArrObj<T, D> {
    /// Size of the buffer in bytes.
    pub open spec fn size_spec(&self) -> int {
        self.len * size_of::<D>()
    }

    /// Wraps the name of a freshly created buffer of `len` elements.
    pub fn new_empty(obj: u32, len: usize) -> (o: Self)
        ensures
            o.obj == obj,
            o.len == len,
    {
        ArrObj { obj, len, t: core::marker::PhantomData }
    }

    /// Size of the buffer in bytes.
    pub fn size(&self) -> (r: usize)
        requires
            self.size_spec() <= usize::MAX,
        ensures
            r == self.size_spec(),
    {
        self.len * core::mem::size_of::<D>()
    }

    /// Byte offset and byte size of an update of `size` elements at element
    /// `offset`, which must lie within the buffer.
    pub fn Update(&self, size: usize, offset: usize) -> (r: (isize, isize))
        requires
            offset + size <= self.len,
            (offset + size) * size_of::<D>() <= isize::MAX,
        ensures
            r.0 == offset * size_of::<D>(),
            r.1 == size * size_of::<D>(),
    {
        let s = core::mem::size_of::<D>();
        proof {
            let (o, z, e) = (offset as int, size as int, s as int);
            assert(o * e <= (o + z) * e && z * e <= (o + z) * e) by (nonlinear_arith)
                requires
                    o >= 0,
                    z >= 0,
                    e >= 0,
            ;
        }
        ((offset * s) as isize, (size * s) as isize)
    }

    /// Byte range and access of a read mapping; see [`get_mapping_args`].
    pub fn MapRead(&self, start: usize, end: usize, access: GLenum) -> (r: (isize, usize, GLenum))
        requires
            mapping_ok(self.len as int, start as int, end as int),
            mapping_end(self.len as int, end as int) * size_of::<D>() <= isize::MAX,
        ensures
            r.0 == start * size_of::<D>(),
            r.1 == (mapping_end(self.len as int, end as int) - start) * size_of::<D>(),
            r.2 == access | gl::MAP_READ_BIT,
    {
        let (o, l, a) = get_mapping_args(self, start, end, access);
        (o, l, a | gl::MAP_READ_BIT)
    }

    /// Byte range and access of a write mapping; see [`get_mapping_args`].
    pub fn MapMut(&mut self, start: usize, end: usize, access: GLenum) -> (r: (isize, usize, GLenum))
        requires
            mapping_ok(old(self).len as int, start as int, end as int),
            mapping_end(old(self).len as int, end as int) * size_of::<D>() <= isize::MAX,
        ensures
            r.0 == start * size_of::<D>(),
            r.1 == (mapping_end(old(self).len as int, end as int) - start) * size_of::<D>(),
            r.2 == access | gl::MAP_WRITE_BIT,
            final(self).obj == old(self).obj,
            final(self).len == old(self).len,
    {
        let (o, l, a) = get_mapping_args(self, start, end, access);
        (o, l, a | gl::MAP_WRITE_BIT)
    }
}

/// End of a mapped element range: `usize::MAX` stands for the end of the buffer.
pub open spec fn mapping_end(len: int, end: int) -> int {
    if end != usize::MAX { end } else { len }
}

/// A mapped range must be non-empty and within the buffer.
pub open spec fn mapping_ok(len: int, start: int, end: int) -> bool {
    start < mapping_end(len, end) <= len
}

/// Byte offset, byte length and access of a mapping of elements
/// `start..end` of `o`; an `end` of `usize::MAX` maps to the end of the buffer.
pub fn get_mapping_args<T, D>(o: &ArrObj<T, D>, start: usize, end: usize, access: GLenum) -> (r: (isize, usize, GLenum))
    requires
        mapping_ok(o.len as int, start as int, end as int),
        mapping_end(o.len as int, end as int) * size_of::<D>() <= isize::MAX,
    ensures
        r.0 == start * size_of::<D>(),
        r.1 == (mapping_end(o.len as int, end as int) - start) * size_of::<D>(),
        r.2 == access,
{
    let end = if end != usize::MAX { end } else { o.len };
    let tsize = core::mem::size_of::<D>();
    proof {
        let (b, e, z) = (start as int, end as int, tsize as int);
        assert(b * z <= e * z && (e - b) * z <= e * z) by (nonlinear_arith)
            requires
                0 <= b < e,
                z >= 0,
        ;
    }
    ((start * tsize) as isize, (end - start) * tsize, access)
}

/// Law: a mapping of a whole buffer covers all its bytes.
pub proof fn law_whole_mapping(len: int, elem: int)
    requires
        len > 0,
        elem >= 0,
    ensures
        mapping_ok(len, 0, usize::MAX as int),
        (mapping_end(len, usize::MAX as int) - 0) * elem == len * elem,
{
}

/// A uniform or shader-storage buffer with the binding location it last had.
#[derive(Debug)]
pub struct ShdArrObj<T, D> {
    pub array: ArrObj<T, D>,
    pub loc: u32,
}

/// A live binding of a uniform or shader-storage buffer at location `l`.
#[derive(Debug)]
pub struct ShdArrBinding<T> {
    pub l: u32,
    pub t: core::marker::PhantomData<T>,
}

impl<T, D> ShdArrObj<T, D> {
    /// Takes over a buffer for a kind whose blocks may hold `max_size` bytes;
    /// the flag says whether the buffer fits.
    pub fn from(array: ArrObj<T, D>, max_size: usize) -> (r: (Self, bool))
        requires
            array.size_spec() <= usize::MAX,
        ensures
            r.0.array == array,
            r.0.loc == 0,
            r.1 == (array.size_spec() <= max_size),
    {
        let size = array.size();
        let fits = size <= max_size;
        (ShdArrObj { array, loc: 0 }, fits)
    }
}

impl<D> ShdArrObj<Uniform, D> {
    /// Binds the buffer at some uniform-buffer location, preferring the one
    /// it had last; the flag says whether the caller has to bind it in GL.
    pub fn Bind(&mut self, st: &mut UniformState) -> (r: (ShdArrBinding<Uniform>, bool))
        requires
            old(st).wf(),
            old(self).loc < old(st).len,
            old(st).used <= old(st).len,
            old(st)@.locs[loc_target(old(st)@, old(self).array.obj, old(self).loc as int)].bind_count < u32::MAX,
        ensures
            final(st).wf(),
            loc_bind_post(old(st)@, old(self).array.obj, old(self).loc as int, final(st)@, LocBind { loc: r.0.l, call: r.1 }),
            final(self).loc == r.0.l,
            final(self).array == old(self).array,
            r.0.l < final(st).len,
    {
        let (b, l, call) = ShdArrBinding::<Uniform>::new(&*self, st, self.loc);
        self.loc = l;
        (b, call)
    }
}

impl<D> ShdArrObj<ShdStorage, D> {
    /// Binds the buffer at storage-buffer location `loc` if that location is
    /// free or already holds it; the flag says whether the caller has to bind
    /// it in GL.
    pub fn Bind(&self, st: &mut UniformState, loc: u32) -> (r: (Option<ShdArrBinding<ShdStorage>>, bool))
        requires
            old(st).wf(),
            loc < old(st).len && (old(st).locs@[loc as int].buf == 0 || old(st).locs@[loc as int].buf == self.array.obj)
                ==> old(st).locs@[loc as int].bind_count < u32::MAX,
        ensures
            final(st).wf(),
            bind_location_post(old(st)@, self.array.obj, loc as int, final(st)@, LocSet { ok: r.0 is Some, call: r.1 }),
            r.0 matches Some(b) ==> b.l == loc,
    {
        ShdArrBinding::<ShdStorage>::new(self, st, loc)
    }
}

impl ShdArrBinding<Uniform> {
    /// Binds uniform buffer `o` at some location, preferring `hint`; returns
    /// the binding, its location, and whether the caller has to bind in GL.
    pub fn new<D>(o: &ShdArrObj<Uniform, D>, st: &mut UniformState, hint: u32) -> (r: (Self, u32, bool))
        requires
            old(st).wf(),
            hint < old(st).len,
            old(st).used <= old(st).len,
            old(st)@.locs[loc_target(old(st)@, o.array.obj, hint as int)].bind_count < u32::MAX,
        ensures
            final(st).wf(),
            loc_bind_post(old(st)@, o.array.obj, hint as int, final(st)@, LocBind { loc: r.1, call: r.2 }),
            r.0.l == r.1,
            r.1 < final(st).len,
    {
        let b = st.Bind(o.array.obj, hint);
        (ShdArrBinding { l: b.loc, t: core::marker::PhantomData }, b.loc, b.call)
    }
}

impl ShdArrBinding<ShdStorage> {
    /// Binds storage buffer `o` at location `loc` when that location is free
    /// or already holds it.
    pub fn new<D>(o: &ShdArrObj<ShdStorage, D>, st: &mut UniformState, loc: u32) -> (r: (Option<Self>, bool))
        requires
            old(st).wf(),
            loc < old(st).len && (old(st).locs@[loc as int].buf == 0 || old(st).locs@[loc as int].buf == o.array.obj)
                ==> old(st).locs@[loc as int].bind_count < u32::MAX,
        ensures
            final(st).wf(),
            bind_location_post(old(st)@, o.array.obj, loc as int, final(st)@, LocSet { ok: r.0 is Some, call: r.1 }),
            r.0 matches Some(b) ==> b.l == loc,
    {
        let s = st.BindLocation(o.array.obj, loc);
        if s.ok {
            (Some(ShdArrBinding { l: loc, t: core::marker::PhantomData }), s.call)
        } else {
            (None, s.call)
        }
    }
}

} // verus!
