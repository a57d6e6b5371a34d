//! Texture geometry: size of each mip level, number of mip levels, and the
//! texture targets.
use vstd::prelude::*;
use crate::glenum::GLenum;
use crate::glenum as gl;
use crate::format::TexSize;
use crate::tex_state::{self, UnitBind, Units};
use crate::uniform::{apply_tex_unit, cache_post, CachedBinding};
use vstd::layout::size_of;

verus! {

/// Width, height, depth and number of mip levels of a texture.
#[derive(Clone, Copy, Debug, PartialEq, Eq, Default)]
pub struct TexParam {
    pub w: i32,
    pub h: i32,
    pub d: i32,
    pub l: i32,
}

pub open spec fn pow2(n: nat) -> int
    decreases n,
{
    if n == 0 {
        1
    } else {
        2 * pow2((n - 1) as nat)
    }
}

/// Number of times `n` can be halved before reaching 1.
pub open spec fn log2_floor(n: int) -> int
    decreases n,
{
    if n <= 1 {
        0
    } else {
        1 + log2_floor(n / 2)
    }
}

/// Extent `v` at mip level `lvl > 0`: divided by `2^lvl`, rounding toward
/// zero, and at least 1.
pub open spec fn halved(v: int, lvl: nat) -> int {
    if v <= 0 {
        1
    } else if v / pow2(lvl) < 1 {
        1
    } else {
        v / pow2(lvl)
    }
}

pub open spec fn max3(a: int, b: int, c: int) -> int {
    let m = if a >= b { a } else { b };
    if m >= c { m } else { c }
}

impl TexParam {
    /// Extents of mip level `lvl`.
    pub open spec fn dim_spec(self, lvl: nat) -> (int, int, int) {
        if lvl == 0 {
            (self.w as int, self.h as int, self.d as int)
        } else {
            (halved(self.w as int, lvl), halved(self.h as int, lvl), halved(self.d as int, lvl))
        }
    }

    /// Number of mip levels of a full chain: down to extent 1 in every dimension.
    pub open spec fn mips_spec(self) -> int {
        1 + log2_floor(max3(self.w as int, self.h as int, self.d as int))
    }

    /// Number of texels of mip level `lvl`.
    pub open spec fn size_spec(self, lvl: nat) -> int {
        let (w, h, d) = self.dim_spec(lvl);
        w * h * d
    }

    /// The same texture with a full mip chain.
    pub fn gen_mips(self) -> (r: Self)
        requires
            max3(self.w as int, self.h as int, self.d as int) >= 1,
        ensures
            r == (TexParam { l: self.mips_spec() as i32, ..self }),
    {
        let mut p = self;
        p.l = self.mips_max();
        p
    }

    /// Number of texels of mip level `lvl`, which must exist.
    pub fn size(&self, lvl: u32) -> (r: usize)
        requires
            (lvl as int) < self.l,
            lvl < 32,
            lvl == 0 ==> self.w >= 0 && self.h >= 0 && self.d >= 0,
            self.size_spec(lvl as nat) <= usize::MAX,
        ensures
            r == self.size_spec(lvl as nat),
    {
        let (w, h, d) = self.dim(lvl);
        proof {
            lemma_halved_pos(self.w as int, lvl as nat);
            lemma_halved_pos(self.h as int, lvl as nat);
            lemma_halved_pos(self.d as int, lvl as nat);
            let (a, b, c) = (w as int, h as int, d as int);
            assert(0 <= a * b) by (nonlinear_arith)
                requires
                    0 <= a,
                    0 <= b,
            ;
            assert(a * b * c <= usize::MAX);
            if c > 0 {
                assert(a * b <= a * b * c) by (nonlinear_arith)
                    requires
                        0 <= a * b,
                        1 <= c,
                ;
                assert(a * b <= usize::MAX);
            }
        }
        if d == 0 {
            return 0;
        }
        let wh = (w as usize) * (h as usize);
        wh * (d as usize)
    }

    /// Extents of mip level `lvl`, which must exist.
    pub fn dim(&self, lvl: u32) -> (r: (i32, i32, i32))
        requires
            (lvl as int) < self.l,
            lvl < 32,
        ensures
            r.0 == self.dim_spec(lvl as nat).0,
            r.1 == self.dim_spec(lvl as nat).1,
            r.2 == self.dim_spec(lvl as nat).2,
    {
        self.dim_unchecked(lvl)
    }

    /// Extents of mip level `lvl`: each extent divided by `2^lvl`, rounding
    /// toward zero, and at least 1; level 0 is the texture's own extents.
    pub fn dim_unchecked(&self, lvl: u32) -> (r: (i32, i32, i32))
        requires
            lvl < 32,
        ensures
            r.0 == self.dim_spec(lvl as nat).0,
            r.1 == self.dim_spec(lvl as nat).1,
            r.2 == self.dim_spec(lvl as nat).2,
    {
        if lvl == 0 {
            return (self.w, self.h, self.d);
        }
        let mut p: i64 = 1;
        let mut i: u32 = 0;
        while i < lvl
            invariant
                i <= lvl < 32,
                p == pow2(i as nat),
                1 <= p <= 0x8000_0000,
            decreases lvl - i,
        {
            proof {
                lemma_pow2_bound(i as nat, lvl as nat);
            }
            p = p * 2;
            i = i + 1;
        }
        (halve(self.w, p, Ghost(lvl as nat)), halve(self.h, p, Ghost(lvl as nat)), halve(self.d, p, Ghost(lvl as nat)))
    }

    /// Number of levels in a full mip chain.
    pub fn mips_max(&self) -> (r: i32)
        requires
            max3(self.w as int, self.h as int, self.d as int) >= 1,
        ensures
            r == self.mips_spec(),
    {
        let a = if self.w >= self.h { self.w } else { self.h };
        let m = if a >= self.d { a } else { self.d };
        let mut x = m;
        let mut n: i32 = 0;
        while x > 1
            invariant
                1 <= x <= m,
                0 <= n <= 31,
                n + log2_floor(x as int) == log2_floor(m as int),
                x as int * pow2(n as nat) <= m,
            decreases x,
        {
            proof {
                lemma_pow2_pos(n as nat);
                assert((x as int / 2) * pow2((n + 1) as nat) <= x as int * pow2(n as nat)) by (nonlinear_arith)
                    requires
                        pow2((n + 1) as nat) == 2 * pow2(n as nat),
                        pow2(n as nat) >= 1,
                        x >= 2,
                ;
                assert(2 * pow2(n as nat) <= m) by (nonlinear_arith)
                    requires
                        x as int * pow2(n as nat) <= m,
                        x >= 2,
                        pow2(n as nat) >= 1,
                ;
                if n >= 31 {
                    lemma_pow2_mono(31, n as nat);
                    lemma_pow2_31();
                    assert(false);
                }
            }
            x = x / 2;
            n = n + 1;
        }
        1 + n
    }

    /// The same parameters, which must name between 1 and a full chain of mip levels.
    pub fn validate(self) -> (r: Self)
        requires
            max3(self.w as int, self.h as int, self.d as int) >= 1,
            self.l > 0,
            self.l <= self.mips_spec(),
        ensures
            r == self,
    {
        self
    }
}

/// `v` at a mip level with divisor `p = 2^lvl`.
fn halve(v: i32, p: i64, Ghost(lvl): Ghost<nat>) -> (r: i32)
    requires
        p == pow2(lvl),
        1 <= p,
    ensures
        r == halved(v as int, lvl),
{
    if v <= 0 {
        return 1;
    }
    let q = (v as i64) / p;
    if q < 1 {
        1
    } else {
        assert(q <= v) by (nonlinear_arith)
            requires
                q == v as i64 / p,
                p >= 1,
                v > 0,
        ;
        q as i32
    }
}

pub proof fn lemma_pow2_pos(n: nat)
    ensures
        pow2(n) >= 1,
    decreases n,
{
    if n > 0 {
        lemma_pow2_pos((n - 1) as nat);
    }
}

pub proof fn lemma_pow2_mono(a: nat, b: nat)
    requires
        a <= b,
    ensures
        pow2(a) <= pow2(b),
    decreases b,
{
    if b > a {
        lemma_pow2_mono(a, (b - 1) as nat);
        lemma_pow2_pos((b - 1) as nat);
    }
}

proof fn lemma_pow2_31()
    ensures
        pow2(31) == 0x8000_0000,
{
    reveal_with_fuel(pow2, 32);
}

proof fn lemma_pow2_bound(i: nat, lvl: nat)
    requires
        i < lvl <= 31,
    ensures
        pow2(i) * 2 <= 0x8000_0000,
{
    lemma_pow2_mono(i + 1, 31);
    lemma_pow2_31();
}

proof fn lemma_halved_pos(v: int, lvl: nat)
    ensures
        lvl > 0 ==> halved(v, lvl) >= 1,
{
}

/// `2^log2_floor(n) <= n < 2^(log2_floor(n) + 1)` for `n >= 1`.
pub proof fn lemma_log2_floor_bounds(n: int)
    requires
        n >= 1,
    ensures
        log2_floor(n) >= 0,
        pow2(log2_floor(n) as nat) <= n,
        n < pow2((log2_floor(n) + 1) as nat),
    decreases n,
{
    if n > 1 {
        lemma_log2_floor_bounds(n / 2);
    }
}

/// Law: in a full mip chain the last level has extent 1 in every dimension,
/// and every level above it has some extent of at least 2.
pub proof fn law_full_chain_ends_at_one(p: TexParam)
    requires
        p.w >= 1,
        p.h >= 1,
        p.d >= 1,
    ensures
        p.mips_spec() >= 1,
        p.mips_spec() >= 2 ==> p.dim_spec((p.mips_spec() - 1) as nat) == (1int, 1int, 1int),
        p.mips_spec() == 1 ==> p.dim_spec(0) == (1int, 1int, 1int),
        p.mips_spec() >= 2 ==> max3(
            p.dim_spec((p.mips_spec() - 2) as nat).0,
            p.dim_spec((p.mips_spec() - 2) as nat).1,
            p.dim_spec((p.mips_spec() - 2) as nat).2,
        ) >= 2,
{
    let m = max3(p.w as int, p.h as int, p.d as int);
    let k = log2_floor(m);
    lemma_log2_floor_bounds(m);
    if k >= 1 {
        let pk = pow2(k as nat);
        assert(pow2((k + 1) as nat) == 2 * pk);
        lemma_pow2_pos(k as nat);
        // every extent is below 2^(k+1), so it halves k times to 1
        assert forall|v: int| 1 <= v <= m implies #[trigger] halved(v, k as nat) == 1 by {
            assert(v / pk < 2) by (nonlinear_arith)
                requires
                    v <= m,
                    m < 2 * pk,
                    pk >= 1,
            ;
        }
        assert(halved(p.w as int, k as nat) == 1);
        assert(halved(p.h as int, k as nat) == 1);
        assert(halved(p.d as int, k as nat) == 1);
        // the largest extent is at least 2^k, so one level up it is at least 2
        let pk1 = pow2((k - 1) as nat);
        assert(pk == 2 * pk1);
        lemma_pow2_pos((k - 1) as nat);
        assert(m / pk1 >= 2) by (nonlinear_arith)
            requires
                pk <= m,
                pk == 2 * pk1,
                pk1 >= 1,
        ;
        if k - 1 == 0 {
            assert(pk1 == 1);
        } else {
            assert(halved(m, (k - 1) as nat) >= 2);
        }
    } else {
        assert(m == 1);
    }
}

/// Law: going down one mip level never makes an extent larger, for textures
/// of positive extents.
pub proof fn law_levels_shrink(v: int, lvl: nat)
    requires
        v >= 1,
        lvl >= 1,
    ensures
        halved(v, lvl + 1) <= halved(v, lvl),
{
    let a = pow2(lvl);
    lemma_pow2_pos(lvl);
    assert(pow2(lvl + 1) == 2 * a);
    assert(v / (2 * a) <= v / a) by (nonlinear_arith)
        requires
            a >= 1,
            v >= 1,
    ;
}

/// Texture target of a texture type.
pub trait TexType {
    const TYPE: GLenum;

    /// The GL texture target, as contracts see it.
    spec fn target() -> GLenum;

    /// The GL texture target.
    fn gl_target() -> (r: GLenum)
        ensures
            r == Self::target(),
    ;
}

/// One-dimensional textures.
#[derive(Clone, Copy, Debug, PartialEq, Eq, Default)]
pub struct GL_TEXTURE_1D;

/// Two-dimensional textures.
#[derive(Clone, Copy, Debug, PartialEq, Eq, Default)]
pub struct GL_TEXTURE_2D;

/// Three-dimensional textures.
#[derive(Clone, Copy, Debug, PartialEq, Eq, Default)]
pub struct GL_TEXTURE_3D;

/// Arrays of one-dimensional textures.
#[derive(Clone, Copy, Debug, PartialEq, Eq, Default)]
pub struct GL_TEXTURE_1D_ARRAY;

/// Arrays of two-dimensional textures.
#[derive(Clone, Copy, Debug, PartialEq, Eq, Default)]
pub struct GL_TEXTURE_2D_ARRAY;

/// Cube maps.
#[derive(Clone, Copy, Debug, PartialEq, Eq, Default)]
pub struct GL_TEXTURE_CUBE_MAP;

/// Arrays of cube maps.
#[derive(Clone, Copy, Debug, PartialEq, Eq, Default)]
pub struct GL_TEXTURE_CUBE_MAP_ARRAY;

/// Buffer textures.
#[derive(Clone, Copy, Debug, PartialEq, Eq, Default)]
pub struct GL_TEXTURE_BUFFER;

/// Multisampled two-dimensional textures.
#[derive(Clone, Copy, Debug, PartialEq, Eq, Default)]
pub struct GL_TEXTURE_2D_MULTISAMPLE;

/// Arrays of multisampled two-dimensional textures.
#[derive(Clone, Copy, Debug, PartialEq, Eq, Default)]
pub struct GL_TEXTURE_2D_MULTISAMPLE_ARRAY;

impl TexType for GL_TEXTURE_1D {
    const TYPE: GLenum = gl::TEXTURE_1D;

    open spec fn target() -> GLenum {
        gl::TEXTURE_1D
    }

    fn gl_target() -> (r: GLenum) {
        gl::TEXTURE_1D
    }
}

impl TexType for GL_TEXTURE_2D {
    const TYPE: GLenum = gl::TEXTURE_2D;

    open spec fn target() -> GLenum {
        gl::TEXTURE_2D
    }

    fn gl_target() -> (r: GLenum) {
        gl::TEXTURE_2D
    }
}

impl TexType for GL_TEXTURE_3D {
    const TYPE: GLenum = gl::TEXTURE_3D;

    open spec fn target() -> GLenum {
        gl::TEXTURE_3D
    }

    fn gl_target() -> (r: GLenum) {
        gl::TEXTURE_3D
    }
}

impl TexType for GL_TEXTURE_1D_ARRAY {
    const TYPE: GLenum = gl::TEXTURE_1D_ARRAY;

    open spec fn target() -> GLenum {
        gl::TEXTURE_1D_ARRAY
    }

    fn gl_target() -> (r: GLenum) {
        gl::TEXTURE_1D_ARRAY
    }
}

impl TexType for GL_TEXTURE_2D_ARRAY {
    const TYPE: GLenum = gl::TEXTURE_2D_ARRAY;

    open spec fn target() -> GLenum {
        gl::TEXTURE_2D_ARRAY
    }

    fn gl_target() -> (r: GLenum) {
        gl::TEXTURE_2D_ARRAY
    }
}

impl TexType for GL_TEXTURE_CUBE_MAP {
    const TYPE: GLenum = gl::TEXTURE_CUBE_MAP;

    open spec fn target() -> GLenum {
        gl::TEXTURE_CUBE_MAP
    }

    fn gl_target() -> (r: GLenum) {
        gl::TEXTURE_CUBE_MAP
    }
}

impl TexType for GL_TEXTURE_CUBE_MAP_ARRAY {
    const TYPE: GLenum = gl::TEXTURE_CUBE_MAP_ARRAY;

    open spec fn target() -> GLenum {
        gl::TEXTURE_CUBE_MAP_ARRAY
    }

    fn gl_target() -> (r: GLenum) {
        gl::TEXTURE_CUBE_MAP_ARRAY
    }
}

impl TexType for GL_TEXTURE_BUFFER {
    const TYPE: GLenum = gl::TEXTURE_BUFFER;

    open spec fn target() -> GLenum {
        gl::TEXTURE_BUFFER
    }

    fn gl_target() -> (r: GLenum) {
        gl::TEXTURE_BUFFER
    }
}

impl TexType for GL_TEXTURE_2D_MULTISAMPLE {
    const TYPE: GLenum = gl::TEXTURE_2D_MULTISAMPLE;

    open spec fn target() -> GLenum {
        gl::TEXTURE_2D_MULTISAMPLE
    }

    fn gl_target() -> (r: GLenum) {
        gl::TEXTURE_2D_MULTISAMPLE
    }
}

impl TexType for GL_TEXTURE_2D_MULTISAMPLE_ARRAY {
    const TYPE: GLenum = gl::TEXTURE_2D_MULTISAMPLE_ARRAY;

    open spec fn target() -> GLenum {
        gl::TEXTURE_2D_MULTISAMPLE_ARRAY
    }

    fn gl_target() -> (r: GLenum) {
        gl::TEXTURE_2D_MULTISAMPLE_ARRAY
    }
}


/// A texture of texel layout `S`, components `F` and target `T`: its GL
/// object, its geometry, and the unit it was last bound to.
#[derive(Debug)]
pub struct Tex<S, F, T> {
    pub obj: u32,
    pub param: TexParam,
    pub unit: u32,
    pub t: core::marker::PhantomData<(S, F, T)>,
}

impl<S, F, T: TexType> Tex<S, F, T> {
    /// A texture by its GL object and geometry, not bound yet.
    pub fn new(obj: u32, param: TexParam) -> (r: Self)
        ensures
            r.obj == obj,
            r.param == param,
            r.unit == 0,
    {
        Tex { obj, param, unit: 0, t: core::marker::PhantomData }
    }

    /// Number of `RF` components in level `lvl` read back as `RS` texels,
    /// and their size in bytes, for the GL read-back call. Cube maps cannot
    /// be read back.
    pub fn Save<RS: TexSize, RF>(&self, lvl: u32) -> (r: (usize, i32))
        requires
            T::target() != gl::TEXTURE_CUBE_MAP && T::target() != gl::TEXTURE_CUBE_MAP_ARRAY,
            (lvl as int) < self.param.l,
            lvl < 32,
            lvl == 0 ==> self.param.w >= 0 && self.param.h >= 0 && self.param.d >= 0,
            RS::layout_size() >= 0,
            self.param.size_spec(lvl as nat) * RS::layout_size() <= usize::MAX,
            self.param.size_spec(lvl as nat) * RS::layout_size() * size_of::<RF>() <= i32::MAX,
        ensures
            r.0 == self.param.size_spec(lvl as nat) * RS::layout_size(),
            r.1 == self.param.size_spec(lvl as nat) * RS::layout_size() * size_of::<RF>(),
    {
        let ghost n = self.param.size_spec(lvl as nat);
        proof {
            lemma_size_nonneg(self.param, lvl as nat);
            let (a, b, c) = (n, RS::layout_size() as int, size_of::<RF>() as int);
            assert(a * b <= a * b * c || c == 0) by (nonlinear_arith)
                requires
                    a >= 0,
                    b >= 0,
                    c >= 0,
            ;
            assert(0 <= a * b) by (nonlinear_arith)
                requires
                    a >= 0,
                    b >= 0,
            ;
            assert(a <= a * b || b == 0) by (nonlinear_arith)
                requires
                    a >= 0,
                    b >= 0,
            ;
            if c == 0 {
                assert(a * b * c == 0) by (nonlinear_arith)
                    requires
                        c == 0,
                ;
            }
        }
        let channels = RS::channels();
        let count = if channels == 0 { 0 } else { self.param.size(lvl) * (channels as usize) };
        proof {
            if channels == 0 {
                assert(n * channels == 0) by (nonlinear_arith)
                    requires
                        channels == 0,
                ;
            }
        }
        let bytes = count * core::mem::size_of::<RF>();
        (count, bytes as i32)
    }

    /// Binds the texture with sampler `samp`, preferring the unit it had
    /// last, and remembers the unit it got.
    pub fn Bind(&mut self, units: &mut Units, samp: u32) -> (r: UnitBind)
        requires
            old(units).wf(),
            old(self).unit < old(units).len,
            old(units).used <= old(units).len,
            old(units).counts_below_max(),
        ensures
            final(units).wf(),
            tex_state::bind_post(old(units)@, old(self).obj, samp, old(self).unit as int, final(units)@, r),
            final(self).unit == r.unit,
            final(self).obj == old(self).obj,
            final(self).param == old(self).param,
            r.unit < final(units).len,
    {
        let r = tex_state::Bind(units, self.obj, samp, self.unit);
        self.unit = r.unit;
        r
    }
}

/// A level's texel count is never negative.
pub proof fn lemma_size_nonneg(p: TexParam, lvl: nat)
    requires
        lvl == 0 ==> p.w >= 0 && p.h >= 0 && p.d >= 0,
    ensures
        p.size_spec(lvl) >= 0,
{
    let (w, h, d) = p.dim_spec(lvl);
    if lvl > 0 {
        lemma_halved_pos(p.w as int, lvl);
        lemma_halved_pos(p.h as int, lvl);
        lemma_halved_pos(p.d as int, lvl);
    }
    assert(w * h * d >= 0) by (nonlinear_arith)
        requires
            w >= 0,
            h >= 0,
            d >= 0,
    ;
}


/// A live binding of a texture to unit `u`.
#[derive(Clone, Copy, Debug, PartialEq, Eq)]
pub struct TextureBind {
    pub u: u32,
}

impl TextureBind {
    /// Sets a sampler uniform, whose cache is `cached`, to the bound unit;
    /// returns whether the GL call has to be made.
    pub fn apply(&self, cached: &mut Option<CachedBinding>) -> (call: bool)
        requires
            self.u <= i32::MAX,
        ensures
            cache_post(*old(cached), CachedBinding::TexUnit(self.u as i32), *final(cached), call),
    {
        apply_tex_unit(cached, self.u as i32)
    }
}

/// A live binding of a buffer texture to unit `u`.
#[derive(Clone, Copy, Debug, PartialEq, Eq)]
pub struct TexBuffBind {
    pub u: u32,
}

impl TexBuffBind {
    /// Binds buffer texture `obj` to a unit, preferring `hint`; the flag of
    /// the result says whether the caller binds it in GL.
    pub fn new(units: &mut Units, obj: u32, hint: u32) -> (r: (Self, UnitBind))
        requires
            old(units).wf(),
            hint < old(units).len,
            old(units).used <= old(units).len,
            old(units).counts_below_max(),
        ensures
            final(units).wf(),
            tex_state::bind_any_post(old(units)@, obj, hint as int, final(units)@, r.1),
            r.0.u == r.1.unit,
            r.1.unit < final(units).len,
    {
        let b = tex_state::BindAny(units, obj, hint);
        (TexBuffBind { u: b.unit }, b)
    }
}

} // verus!
